//! The decisions of a translation run that sit between the outside work:
//! what is still owed, which paragraph an annotation belongs to, rebuilding
//! a page from saved annotations, and the run settings.
use vstd::prelude::*;
use vstd::utf8::{decode_utf8, encode_utf8};
use crate::batching::{PendingParagraph, PendingView};
use crate::html_gen::{generate_html, indices_fit, page_html, patch_html, patched};
use crate::text::{chars_of, trim, trim_chars};
use crate::types::{
    chapters_view, paragraphs_view, Book, BookView, ChapterView, LlmResponse, Paragraph,
    ParagraphKind, ParagraphView, ResponseView,
};

verus! {

/// All paragraphs of the chapters, in reading order.
pub open spec fn all_paragraphs(cs: Seq<ChapterView>) -> Seq<ParagraphView>
    decreases cs.len(),
{
    if cs.len() == 0 {
        Seq::empty()
    } else {
        all_paragraphs(cs.drop_last()) + cs.last().paragraphs
    }
}

/// The prose paragraphs among `ps`.
pub open spec fn prose_count(ps: Seq<ParagraphView>) -> nat
    decreases ps.len(),
{
    if ps.len() == 0 {
        0
    } else {
        prose_count(ps.drop_last()) + if ps.last().kind is Text {
            1nat
        } else {
            0nat
        }
    }
}

proof fn lemma_prose_count_le(ps: Seq<ParagraphView>)
    ensures
        prose_count(ps) <= ps.len(),
    decreases ps.len(),
{
    if ps.len() > 0 {
        lemma_prose_count_le(ps.drop_last());
    }
}

proof fn lemma_prose_count_append(a: Seq<ParagraphView>, b: Seq<ParagraphView>)
    ensures
        prose_count(a + b) == prose_count(a) + prose_count(b),
    decreases b.len(),
{
    if b.len() > 0 {
        assert((a + b).drop_last() =~= a + b.drop_last());
        lemma_prose_count_append(a, b.drop_last());
    } else {
        assert(a + b =~= a);
    }
}

fn clone_kind(k: &ParagraphKind) -> (r: ParagraphKind)
    ensures
        r@ == k@,
{
    match k {
        ParagraphKind::Text => ParagraphKind::Text,
        ParagraphKind::CodeBlock { language } => ParagraphKind::CodeBlock {
            language: match language {
                Some(l) => Some(l.clone()),
                None => None,
            },
        },
    }
}

/// A copy of `p`.
pub fn clone_paragraph(p: &Paragraph) -> (r: Paragraph)
    ensures
        r@ == p@,
{
    Paragraph { id: p.id.clone(), text: p.text.clone(), kind: clone_kind(&p.kind) }
}

/// The number of prose paragraphs of a book.
pub fn translatable_paragraph_count(book: &Book) -> (r: usize)
    requires
        prose_count(all_paragraphs(book@.chapters)) <= usize::MAX,
    ensures
        r == prose_count(all_paragraphs(book@.chapters)),
{
    let ghost cv = book@.chapters;
    let mut n: usize = 0;
    let mut i: usize = 0;
    while i < book.chapters.len()
        invariant
            i <= book.chapters.len(),
            cv == book@.chapters,
            prose_count(all_paragraphs(cv)) <= usize::MAX,
            n == prose_count(all_paragraphs(cv.take(i as int))),
        decreases book.chapters.len() - i,
    {
        assert(cv.take(i + 1).drop_last() =~= cv.take(i as int));
        let ps = &book.chapters[i].paragraphs;
        let ghost pv = paragraphs_view(ps@);
        assert(cv[i as int].paragraphs == pv);
        proof {
            lemma_prose_count_append(all_paragraphs(cv.take(i as int)), pv);
            lemma_all_paragraphs_prefix(cv, i + 1);
        }
        let mut j: usize = 0;
        let ghost base = n as nat;
        while j < ps.len()
            invariant
                j <= ps.len(),
                pv == paragraphs_view(ps@),
                n == base + prose_count(pv.take(j as int)),
                base + prose_count(pv) <= usize::MAX,
            decreases ps.len() - j,
        {
            assert(pv.take(j + 1).drop_last() =~= pv.take(j as int));
            assert(pv.take(j + 1).last() == ps@[j as int]@);
            proof {
                lemma_prose_count_prefix(pv, j + 1);
            }
            if ps[j].is_translatable() {
                n = n + 1;
            }
            j = j + 1;
        }
        assert(pv.take(ps.len() as int) =~= pv);
        i = i + 1;
    }
    assert(cv.take(book.chapters.len() as int) =~= cv);
    n
}

proof fn lemma_prose_count_prefix(ps: Seq<ParagraphView>, k: int)
    requires
        0 <= k <= ps.len(),
    ensures
        prose_count(ps.take(k)) <= prose_count(ps),
{
    assert(ps =~= ps.take(k) + ps.skip(k));
    lemma_prose_count_append(ps.take(k), ps.skip(k));
}

proof fn lemma_all_paragraphs_prefix(cs: Seq<ChapterView>, k: int)
    requires
        0 <= k <= cs.len(),
    ensures
        prose_count(all_paragraphs(cs.take(k))) <= prose_count(all_paragraphs(cs)),
    decreases cs.len() - k,
{
    if k < cs.len() {
        lemma_all_paragraphs_prefix(cs, k + 1);
        assert(cs.take(k + 1).drop_last() =~= cs.take(k));
        lemma_prose_count_append(all_paragraphs(cs.take(k)), cs[k].paragraphs);
    } else {
        assert(cs.take(k) =~= cs);
    }
}

/// The prose paragraphs not yet annotated (their id not among `done`) whose
/// text is not blank, in reading order.
pub open spec fn pending_of(ps: Seq<ParagraphView>, done: Seq<Seq<char>>) -> Seq<PendingView>
    decreases ps.len(),
{
    if ps.len() == 0 {
        Seq::empty()
    } else {
        let prev = pending_of(ps.drop_last(), done);
        let p = ps.last();
        if p.kind is Text && !done.contains(p.id) && trim(p.text).len() > 0 {
            prev.push(PendingView { id: p.id, text: p.text })
        } else {
            prev
        }
    }
}

fn same_text(a: &String, b: &String) -> (r: bool)
    ensures
        r == (a@ == b@),
{
    let x = chars_of(a.as_str());
    let y = chars_of(b.as_str());
    crate::text::chars_equal(x.as_slice(), y.as_slice())
}

fn contains_id(done: &Vec<String>, id: &String) -> (r: bool)
    ensures
        r == crate::search::strings_view(done@).contains(id@),
{
    let ghost dv = crate::search::strings_view(done@);
    let mut i: usize = 0;
    while i < done.len()
        invariant
            i <= done.len(),
            dv == crate::search::strings_view(done@),
            forall|k: int| 0 <= k < i ==> dv[k] != id@,
        decreases done.len() - i,
    {
        if same_text(&done[i], id) {
            assert(dv[i as int] == id@);
            return true;
        }
        i = i + 1;
    }
    false
}

/// The paragraphs that still need annotations.
pub fn pending_paragraphs(book: &Book, done: &Vec<String>) -> (r: Vec<PendingParagraph>)
    ensures
        crate::batching::pending_view(r@) == pending_of(
            all_paragraphs(book@.chapters),
            crate::search::strings_view(done@),
        ),
{
    let ghost cv = book@.chapters;
    let ghost dv = crate::search::strings_view(done@);
    let mut r: Vec<PendingParagraph> = Vec::new();
    let mut i: usize = 0;
    assert(crate::batching::pending_view(r@) =~= Seq::<PendingView>::empty());
    while i < book.chapters.len()
        invariant
            i <= book.chapters.len(),
            cv == book@.chapters,
            dv == crate::search::strings_view(done@),
            crate::batching::pending_view(r@) == pending_of(all_paragraphs(cv.take(i as int)), dv),
        decreases book.chapters.len() - i,
    {
        assert(cv.take(i + 1).drop_last() =~= cv.take(i as int));
        let ps = &book.chapters[i].paragraphs;
        let ghost pv = paragraphs_view(ps@);
        let ghost before = all_paragraphs(cv.take(i as int));
        assert(all_paragraphs(cv.take(i + 1)) == before + pv);
        let mut j: usize = 0;
        assert(before + pv.take(0) =~= before);
        while j < ps.len()
            invariant
                j <= ps.len(),
                pv == paragraphs_view(ps@),
                dv == crate::search::strings_view(done@),
                crate::batching::pending_view(r@) == pending_of(before + pv.take(j as int), dv),
            decreases ps.len() - j,
        {
            assert((before + pv.take(j + 1)).drop_last() =~= before + pv.take(j as int));
            assert((before + pv.take(j + 1)).last() == ps@[j as int]@);
            let p = &ps[j];
            let v = chars_of(p.text.as_str());
            if p.is_translatable() && !contains_id(done, &p.id) && trim_chars(v.as_slice()).len()
                > 0 {
                let ghost old_r = crate::batching::pending_view(r@);
                r.push(PendingParagraph { para_id: p.id.clone(), para_text: p.text.clone() });
                assert(crate::batching::pending_view(r@) =~= old_r.push(
                    PendingView { id: p@.id, text: p@.text },
                ));
            }
            j = j + 1;
        }
        assert(before + pv.take(ps.len() as int) =~= before + pv);
        i = i + 1;
    }
    assert(cv.take(book.chapters.len() as int) =~= cv);
    r
}

/// The last prose paragraph of `ps` with id `id` (later ones win, as when
/// the paragraphs are collected into a map by id).
pub open spec fn lookup_prose(ps: Seq<ParagraphView>, id: Seq<char>) -> Option<ParagraphView>
    decreases ps.len(),
{
    if ps.len() == 0 {
        None
    } else if ps.last().kind is Text && ps.last().id == id {
        Some(ps.last())
    } else {
        lookup_prose(ps.drop_last(), id)
    }
}

proof fn lemma_lookup_append(a: Seq<ParagraphView>, b: Seq<ParagraphView>, id: Seq<char>)
    ensures
        lookup_prose(a + b, id) == (match lookup_prose(b, id) {
            Some(p) => Some(p),
            None => lookup_prose(a, id),
        }),
    decreases b.len(),
{
    if b.len() > 0 {
        assert((a + b).drop_last() =~= a + b.drop_last());
        assert((a + b).last() == b.last());
        lemma_lookup_append(a, b.drop_last(), id);
    } else {
        assert(a + b =~= a);
    }
}

/// The prose paragraph of the book with id `id`.
pub fn find_translatable_paragraph(book: &Book, id: &str) -> (r: Option<Paragraph>)
    ensures
        match lookup_prose(all_paragraphs(book@.chapters), id@) {
            Some(p) => r matches Some(x) && x@ == p,
            None => r is None,
        },
{
    let ghost cv = book@.chapters;
    let wanted = String::from_str(id);
    let mut i: usize = book.chapters.len();
    assert(cv.take(i as int) =~= cv);
    while i > 0
        invariant
            i <= book.chapters.len(),
            cv == book@.chapters,
            lookup_prose(all_paragraphs(cv), id@) == lookup_prose(all_paragraphs(cv.take(i as int)), id@),
            wanted@ == id@,
        decreases i,
    {
        let ps = &book.chapters[i - 1].paragraphs;
        let ghost pv = paragraphs_view(ps@);
        assert(cv.take(i as int).drop_last() =~= cv.take(i - 1));
        assert(all_paragraphs(cv.take(i as int)) == all_paragraphs(cv.take(i - 1)) + pv);
        proof {
            lemma_lookup_append(all_paragraphs(cv.take(i - 1)), pv, id@);
        }
        let ghost outer = all_paragraphs(cv.take(i - 1));
        let mut j: usize = ps.len();
        assert(pv.take(j as int) =~= pv);
        while j > 0
            invariant
                j <= ps.len(),
                pv == paragraphs_view(ps@),
                lookup_prose(pv, id@) == lookup_prose(pv.take(j as int), id@),
                wanted@ == id@,
                cv == book@.chapters,
                lookup_prose(all_paragraphs(cv), id@) == (match lookup_prose(pv, id@) {
                    Some(x) => Some(x),
                    None => lookup_prose(outer, id@),
                }),
            decreases j,
        {
            assert(pv.take(j as int).drop_last() =~= pv.take(j - 1));
            assert(pv.take(j as int).last() == ps@[j - 1]@);
            let p = &ps[j - 1];
            if p.is_translatable() && same_text(&p.id, &wanted) {
                assert(lookup_prose(pv.take(j as int), id@) == Some(p@));
                assert(lookup_prose(pv, id@) == Some(p@));
                return Some(clone_paragraph(p));
            }
            j = j - 1;
        }
        assert(pv.take(0) =~= Seq::<ParagraphView>::empty());
        i = i - 1;
    }
    assert(cv.take(0) =~= Seq::<ChapterView>::empty());
    None
}

/// The views of saved annotations, keyed by paragraph id.
pub open spec fn saved_view(v: Seq<(String, LlmResponse)>) -> Seq<(Seq<char>, ResponseView)> {
    v.map_values(|e: (String, LlmResponse)| (e.0@, e.1@))
}

/// The page `html` with each saved annotation patched into the block of its
/// paragraph, in order; annotations of unknown ids are skipped.
pub open spec fn apply_saved(
    html: Seq<char>,
    ps: Seq<ParagraphView>,
    saved: Seq<(Seq<char>, ResponseView)>,
) -> Seq<char>
    decreases saved.len(),
{
    if saved.len() == 0 {
        html
    } else {
        let prev = apply_saved(html, ps, saved.drop_last());
        match lookup_prose(ps, saved.last().0) {
            Some(p) => patched(prev, p, saved.last().1),
            None => prev,
        }
    }
}

/// Rebuilds the page of a book from its saved annotations.
pub fn rebuild_page(book: &Book, saved: &Vec<(String, LlmResponse)>) -> (r: String)
    requires
        indices_fit(book@.chapters),
    ensures
        r@ == apply_saved(page_html(book@), all_paragraphs(book@.chapters), saved_view(saved@)),
{
    let ghost sv = saved_view(saved@);
    let ghost ps = all_paragraphs(book@.chapters);
    let mut html = generate_html(book);
    let mut i: usize = 0;
    while i < saved.len()
        invariant
            i <= saved.len(),
            sv == saved_view(saved@),
            ps == all_paragraphs(book@.chapters),
            html@ == apply_saved(page_html(book@), ps, sv.take(i as int)),
        decreases saved.len() - i,
    {
        assert(sv.take(i + 1).drop_last() =~= sv.take(i as int));
        assert(sv.take(i + 1).last() == (saved@[i as int].0@, saved@[i as int].1@));
        let (id, resp) = &saved[i];
        match find_translatable_paragraph(book, id.as_str()) {
            Some(p) => {
                html = patch_html(html.as_str(), &p, resp);
            },
            None => {},
        }
        i = i + 1;
    }
    assert(sv.take(saved.len() as int) =~= sv);
    html
}

/// `para_id` as shown in progress messages: unchanged up to 28 bytes, else
/// `…` and its last 27 bytes.
pub open spec fn abbreviated(id: Seq<char>) -> Seq<char> {
    let b = encode_utf8(id);
    if b.len() <= 28 {
        id
    } else {
        "…"@ + decode_utf8(b.subrange(b.len() - 27, b.len() as int))
    }
}

/// Shortens a paragraph id for display. The cut must fall on a character
/// boundary, as for any `str` slice.
pub fn abbreviate_para_id(para_id: &str) -> (r: String)
    requires
        encode_utf8(para_id@).len() <= 28 || vstd::utf8::is_char_boundary(
            encode_utf8(para_id@),
            encode_utf8(para_id@).len() - 27,
        ),
    ensures
        r@ == abbreviated(para_id@),
{
    let bytes = para_id.as_bytes();
    let n = bytes.len();
    assert(bytes@ == encode_utf8(para_id@));
    if n <= 28 {
        return String::from_str(para_id);
    }
    proof {
        vstd::utf8::encode_utf8_valid_utf8(para_id@);
    }
    let (_, tail) = para_id.split_at(n - 27);
    proof {
        vstd::utf8::encode_utf8_decode_utf8(tail@);
    }
    let mut s = String::from_str("…");
    s.append(tail);
    s
}

/// Why run settings are refused.
#[derive(Debug, Clone, Copy, PartialEq, Eq, Structural)]
pub enum SettingsError {
    JobsZero,
    JobsOverSixteen,
    MinParagraphCharsZero,
    TitleMaxWordsZero,
    HeadingMaxWordsZero,
}

impl SettingsError {
    /// The message shown for the refusal.
    pub fn message(&self) -> (r: String)
        ensures
            r@ == match *self {
                SettingsError::JobsZero => "--jobs must be at least 1"@,
                SettingsError::JobsOverSixteen => "--jobs must be 16 or smaller"@,
                SettingsError::MinParagraphCharsZero => "--min-paragraph-chars must be at least 1"@,
                SettingsError::TitleMaxWordsZero => "--title-max-words must be at least 1"@,
                SettingsError::HeadingMaxWordsZero => "--heading-max-words must be at least 1"@,
            },
    {
        match self {
            SettingsError::JobsZero => String::from_str("--jobs must be at least 1"),
            SettingsError::JobsOverSixteen => String::from_str("--jobs must be 16 or smaller"),
            SettingsError::MinParagraphCharsZero => String::from_str(
                "--min-paragraph-chars must be at least 1",
            ),
            SettingsError::TitleMaxWordsZero => String::from_str("--title-max-words must be at least 1"),
            SettingsError::HeadingMaxWordsZero => String::from_str(
                "--heading-max-words must be at least 1",
            ),
        }
    }
}

/// Checks the run settings in order: 1 to 16 jobs, and non-zero paragraph,
/// title and heading limits.
pub fn validate_settings(
    jobs: usize,
    min_paragraph_chars: usize,
    title_max_words: usize,
    heading_max_words: usize,
) -> (r: Result<(), SettingsError>)
    ensures
        r == (if jobs == 0 {
            Err(SettingsError::JobsZero)
        } else if jobs > 16 {
            Err(SettingsError::JobsOverSixteen)
        } else if min_paragraph_chars == 0 {
            Err(SettingsError::MinParagraphCharsZero)
        } else if title_max_words == 0 {
            Err(SettingsError::TitleMaxWordsZero)
        } else if heading_max_words == 0 {
            Err(SettingsError::HeadingMaxWordsZero)
        } else {
            Ok(())
        }),
{
    if jobs == 0 {
        return Err(SettingsError::JobsZero);
    }
    if jobs > 16 {
        return Err(SettingsError::JobsOverSixteen);
    }
    if min_paragraph_chars == 0 {
        return Err(SettingsError::MinParagraphCharsZero);
    }
    if title_max_words == 0 {
        return Err(SettingsError::TitleMaxWordsZero);
    }
    if heading_max_words == 0 {
        return Err(SettingsError::HeadingMaxWordsZero);
    }
    Ok(())
}

/// What the request queue does next.
#[derive(Debug, Clone, Copy, PartialEq, Eq, Structural)]
pub enum LaunchStep {
    /// Enough requests are running, or none is left to start.
    Stop,
    /// Start the next request now.
    Launch,
    /// Wait the launch delay, then start the next request.
    DelayThenLaunch,
}

/// The queue starts requests while fewer than `jobs` run and some remain;
/// every request but the first waits the launch delay, when there is one.
pub fn next_launch_step(
    active: usize,
    jobs: usize,
    remaining: usize,
    launched_any: bool,
    delay_ms: u64,
) -> (r: LaunchStep)
    ensures
        r == (if active >= jobs || remaining == 0 {
            LaunchStep::Stop
        } else if launched_any && delay_ms != 0 {
            LaunchStep::DelayThenLaunch
        } else {
            LaunchStep::Launch
        }),
{
    if active >= jobs || remaining == 0 {
        LaunchStep::Stop
    } else if launched_any && delay_ms != 0 {
        LaunchStep::DelayThenLaunch
    } else {
        LaunchStep::Launch
    }
}

/// What follows a failed batch request.
#[derive(Debug, Clone, Copy, PartialEq, Eq, Structural)]
pub enum FailurePlan {
    /// Ask again for each paragraph on its own.
    RetryIndividually,
    /// Report the failure for the batch's paragraph.
    FailAll,
}

/// A failed batch of several paragraphs is retried paragraph by paragraph;
/// a failed single paragraph is reported.
pub fn failure_plan(batch_len: usize) -> (r: FailurePlan)
    ensures
        r == (if batch_len > 1 {
            FailurePlan::RetryIndividually
        } else {
            FailurePlan::FailAll
        }),
{
    if batch_len > 1 {
        FailurePlan::RetryIndividually
    } else {
        FailurePlan::FailAll
    }
}

} // verus!
