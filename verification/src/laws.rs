//! Properties of the library as a whole, each proved from the contracts
//! and definitions the functions above state.
use vstd::prelude::*;
use crate::batching::{
    batch_len_at, batch_plan, batch_plan_from, grow_batch, lemma_batch_len_bounds, sizes_of,
    PendingView, BATCH_HARD_MAX_CHARS, BATCH_MAX_ITEMS, SINGLE_PARAGRAPH_CHARS,
};
use crate::epub::{epub_chapters, texts_to_paragraphs};
use crate::parse_utils::{build_chapters, finished_book, para_id, seed_paragraphs, BuilderView, SeedView};
use crate::parser::format_of_extension;
use crate::pipeline::pending_of;
use crate::text::{ascii_lower, ascii_lower_seq, decimal, digit_char, is_ws, normalize, padded_decimal};
use crate::types::{ChapterView, KindView, ParagraphView, ResponseView};
use crate::block_scan::{
    block_free, lemma_block_layout, lemma_no_block_start, lemma_para_block_opens_once, lemma_prefix_chars, no_block_start, lemma_close_of_scan, lemma_para_block_closes, lemma_scan_slice,
    piece_status, Scan,
};
use crate::html_gen::{block_marker, close_of, para_block, patched};
use crate::search::{
    find, lemma_find_from_skip, matches_at,
};

verus! {

// ───────────────────────── whitespace ─────────────────────────

/// `s` is already collapsed: no whitespace but single spaces between words.
pub open spec fn collapsed(s: Seq<char>) -> bool {
    forall|i: int|
        0 <= i < s.len() && is_ws(#[trigger] s[i]) ==> s[i] == ' ' && 0 < i && i + 1 < s.len()
            && !is_ws(s[i - 1]) && !is_ws(s[i + 1])
}

proof fn lemma_normalize_collapsed(s: Seq<char>)
    ensures
        collapsed(normalize(s)),
        normalize(s).len() > 0 ==> !is_ws(normalize(s).last()),
    decreases s.len(),
{
    if s.len() > 0 {
        lemma_normalize_collapsed(s.drop_last());
        let prev = normalize(s.drop_last());
        let n = normalize(s);
        assert forall|i: int| 0 <= i < n.len() && is_ws(#[trigger] n[i]) implies n[i] == ' ' && 0
            < i && i + 1 < n.len() && !is_ws(n[i - 1]) && !is_ws(n[i + 1]) by {
            if i < prev.len() {
                assert(n[i] == prev[i]);
                if i + 1 < prev.len() {
                    assert(n[i + 1] == prev[i + 1]);
                }
                assert(n[i - 1] == prev[i - 1]);
            }
        }
    }
}

proof fn lemma_collapsed_prefix(s: Seq<char>, k: int)
    requires
        collapsed(s),
        0 <= k <= s.len(),
        k > 0 ==> !is_ws(s[k - 1]),
    ensures
        collapsed(s.take(k)),
{
    let t = s.take(k);
    assert forall|i: int| 0 <= i < t.len() && is_ws(#[trigger] t[i]) implies t[i] == ' ' && 0 < i
        && i + 1 < t.len() && !is_ws(t[i - 1]) && !is_ws(t[i + 1]) by {
        assert(t[i] == s[i]);
        assert(i != k - 1);
        assert(t[i - 1] == s[i - 1]);
        assert(t[i + 1] == s[i + 1]);
    }
}

proof fn lemma_normalize_fixed(s: Seq<char>)
    requires
        collapsed(s),
        s.len() > 0 ==> !is_ws(s.last()),
    ensures
        normalize(s) == s,
    decreases s.len(),
{
    if s.len() > 0 {
        let p = s.drop_last();
        if s.len() >= 2 && is_ws(s[s.len() - 2]) {
            assert(s[s.len() - 2] == ' ');
            let q = p.drop_last();
            assert(q =~= s.take(s.len() - 2));
            assert(!is_ws(s[s.len() - 3]));
            lemma_collapsed_prefix(s, s.len() - 2);
            lemma_normalize_fixed(q);
            assert(p =~= q.push(' '));
            assert(p.drop_last() =~= q);
            assert(normalize(p) == q);
            assert(s =~= q.push(' ').push(s.last()));
        } else {
            assert(p =~= s.take(s.len() - 1));
            lemma_collapsed_prefix(s, s.len() - 1);
            lemma_normalize_fixed(p);
            assert(s =~= p.push(s.last()));
        }
    }
}

/// Collapsing whitespace twice gives what collapsing once gives.
pub proof fn normalize_is_idempotent(s: Seq<char>)
    ensures
        normalize(normalize(s)) == normalize(s),
{
    lemma_normalize_collapsed(s);
    lemma_normalize_fixed(normalize(s));
}

/// The words of `s`: its maximal runs of non-whitespace characters, in order.
pub open spec fn words(s: Seq<char>) -> Seq<Seq<char>>
    decreases s.len(),
{
    if s.len() == 0 {
        Seq::empty()
    } else {
        let prev = words(s.drop_last());
        let c = s.last();
        if is_ws(c) {
            prev
        } else if s.len() >= 2 && !is_ws(s[s.len() - 2]) {
            prev.drop_last().push(prev.last().push(c))
        } else {
            prev.push(seq![c])
        }
    }
}

proof fn lemma_normalize_keeps_last(s: Seq<char>)
    requires
        s.len() > 0,
        !is_ws(s.last()),
    ensures
        normalize(s).len() > 0,
        normalize(s).last() == s.last(),
{
}

proof fn lemma_normalize_words(s: Seq<char>)
    ensures
        words(normalize(s)) == words(s),
    decreases s.len(),
{
    if s.len() > 0 {
        let t = s.drop_last();
        lemma_normalize_words(t);
        let p = normalize(t);
        let c = s.last();
        if !is_ws(c) {
            if s.len() >= 2 && !is_ws(s[s.len() - 2]) {
                assert(t.last() == s[s.len() - 2]);
                lemma_normalize_keeps_last(t);
                let n = p.push(c);
                assert(normalize(s) == n);
                assert(n.drop_last() =~= p);
                assert(n[n.len() - 2] == p.last());
                assert(words(n) == words(p).drop_last().push(words(p).last().push(c)));
                assert(words(s) == words(t).drop_last().push(words(t).last().push(c)));
            } else if p.len() == 0 {
                let n = p.push(c);
                assert(normalize(s) == n);
                assert(n.drop_last() =~= p);
                assert(words(p) =~= Seq::<Seq<char>>::empty());
                assert(words(n) == words(p).push(seq![c]));
                assert(words(s) == words(t).push(seq![c]));
            } else {
                let q = p.push(' ');
                let n = q.push(c);
                assert(normalize(s) == n);
                assert(n.drop_last() =~= q);
                assert(q.drop_last() =~= p);
                assert(n[n.len() - 2] == ' ');
                assert(is_ws(' '));
                assert(words(q) == words(p));
                assert(words(n) == words(q).push(seq![c]));
                assert(words(s) == words(t).push(seq![c]));
            }
        }
    }
}

/// Collapsing whitespace keeps the words of a text, in order, and leaves no
/// whitespace but single spaces between them.
pub proof fn normalize_keeps_words(s: Seq<char>)
    ensures
        words(normalize(s)) == words(s),
        collapsed(normalize(s)),
        normalize(s).len() > 0 ==> !is_ws(normalize(s)[0]) && !is_ws(normalize(s).last()),
{
    lemma_normalize_words(s);
    lemma_normalize_collapsed(s);
    let n = normalize(s);
    if n.len() > 0 && is_ws(n[0]) {
        assert(is_ws(n[0]));
    }
}

// ───────────────────────── input formats ─────────────────────────

/// Extensions are recognised without regard to ASCII case.
pub proof fn extension_case_is_ignored(ext: Seq<char>)
    ensures
        format_of_extension(ext) == format_of_extension(ascii_lower_seq(ext)),
{
    assert(ascii_lower_seq(ascii_lower_seq(ext)) =~= ascii_lower_seq(ext));
}

// ───────────────────────── paragraph ids ─────────────────────────

/// Chapter `i` has index `i`, and its paragraph `j` has the id
/// `{slug}-ch{i:03}-p{j:04}`.
pub open spec fn numbered(cs: Seq<ChapterView>, slug: Seq<char>) -> bool {
    &&& forall|i: int| 0 <= i < cs.len() ==> (#[trigger] cs[i]).index == i
    &&& forall|i: int, j: int|
        0 <= i < cs.len() && 0 <= j < cs[i].paragraphs.len() ==> (
        #[trigger] cs[i].paragraphs[j]).id == para_id(slug, i as nat, j as nat)
}

/// No two paragraphs of the chapters share an id.
pub open spec fn ids_unique(cs: Seq<ChapterView>) -> bool {
    forall|i1: int, j1: int, i2: int, j2: int|
        0 <= i1 < cs.len() && 0 <= j1 < cs[i1].paragraphs.len() && 0 <= i2 < cs.len() && 0 <= j2
            < cs[i2].paragraphs.len() && (i1 != i2 || j1 != j2) ==> (
        #[trigger] cs[i1].paragraphs[j1]).id != (#[trigger] cs[i2].paragraphs[j2]).id
}

pub open spec fn is_digit(c: char) -> bool {
    '0' <= c && c <= '9'
}

pub open spec fn digit_value(c: char) -> nat {
    ((c as u32) - ('0' as u32)) as nat
}

/// The number a string of decimal digits spells.
pub open spec fn digits_value(s: Seq<char>) -> nat
    decreases s.len(),
{
    if s.len() == 0 {
        0
    } else {
        digits_value(s.drop_last()) * 10 + digit_value(s.last())
    }
}

proof fn lemma_digit_char(d: nat)
    requires
        d < 10,
    ensures
        is_digit(digit_char(d)),
        digit_value(digit_char(d)) == d,
{
}

proof fn lemma_decimal(n: nat)
    ensures
        forall|i: int| 0 <= i < decimal(n).len() ==> is_digit(#[trigger] decimal(n)[i]),
        digits_value(decimal(n)) == n,
    decreases n,
{
    if n < 10 {
        lemma_digit_char(n);
        assert(decimal(n).drop_last() =~= Seq::<char>::empty());
        assert(digits_value(Seq::<char>::empty()) == 0);
        assert(digits_value(decimal(n)) == n);
    } else {
        lemma_decimal(n / 10);
        lemma_digit_char(n % 10);
        let d = decimal(n);
        assert(d.drop_last() =~= decimal(n / 10));
        assert(digits_value(d) == (n / 10) * 10 + n % 10);
        vstd::arithmetic::div_mod::lemma_fundamental_div_mod(n as int, 10);
        assert((n / 10) * 10 + n % 10 == n);
    }
}

proof fn lemma_zeros_prefix(k: nat, d: Seq<char>)
    ensures
        digits_value(Seq::new(k, |i: int| '0') + d) == digits_value(d),
    decreases d.len(),
{
    let z = Seq::new(k, |i: int| '0');
    if d.len() == 0 {
        assert(z + d =~= z);
        lemma_zeros_value(k);
    } else {
        assert((z + d).drop_last() =~= z + d.drop_last());
        lemma_zeros_prefix(k, d.drop_last());
    }
}

proof fn lemma_zeros_value(k: nat)
    ensures
        digits_value(Seq::new(k, |i: int| '0')) == 0,
    decreases k,
{
    if k > 0 {
        assert(Seq::new(k, |i: int| '0').drop_last() =~= Seq::new((k - 1) as nat, |i: int| '0'));
        lemma_zeros_value((k - 1) as nat);
    }
}

proof fn lemma_padded(n: nat, w: nat)
    ensures
        forall|i: int|
            0 <= i < padded_decimal(n, w).len() ==> is_digit(#[trigger] padded_decimal(n, w)[i]),
        digits_value(padded_decimal(n, w)) == n,
{
    lemma_decimal(n);
    let d = decimal(n);
    if d.len() < w {
        let z = Seq::new((w - d.len()) as nat, |i: int| '0');
        lemma_zeros_prefix((w - d.len()) as nat, d);
        assert forall|i: int| 0 <= i < (z + d).len() implies is_digit(#[trigger] (z + d)[i]) by {
            if i >= z.len() {
                assert((z + d)[i] == d[i - z.len()]);
            }
        }
    }
}

proof fn lemma_para_id_injective(slug: Seq<char>, c1: nat, p1: nat, c2: nat, p2: nat)
    requires
        para_id(slug, c1, p1) == para_id(slug, c2, p2),
    ensures
        c1 == c2,
        p1 == p2,
{
    lemma_padded(c1, 3);
    lemma_padded(c2, 3);
    lemma_padded(p1, 4);
    lemma_padded(p2, 4);
    let a1 = padded_decimal(c1, 3);
    let a2 = padded_decimal(c2, 3);
    let b1 = padded_decimal(p1, 4);
    let b2 = padded_decimal(p2, 4);
    let x1 = a1 + seq!['-', 'p'] + b1;
    let x2 = a2 + seq!['-', 'p'] + b2;
    let id1 = para_id(slug, c1, p1);
    let k: int = slug.len() + 3int;
    assert(id1 =~= slug + seq!['-', 'c', 'h'] + x1);
    assert(para_id(slug, c2, p2) =~= slug + seq!['-', 'c', 'h'] + x2);
    assert(id1.skip(k) =~= x1);
    assert(para_id(slug, c2, p2).skip(k) =~= x2);
    assert(x1 == x2);
    if a1.len() < a2.len() {
        assert(x1[a1.len() as int] == '-');
        assert(x2[a1.len() as int] == a2[a1.len() as int]);
        assert(false);
    }
    if a2.len() < a1.len() {
        assert(x2[a2.len() as int] == '-');
        assert(x1[a2.len() as int] == a1[a2.len() as int]);
        assert(false);
    }
    assert(a1 =~= x1.take(a1.len() as int));
    assert(a2 =~= x2.take(a2.len() as int));
    assert(b1 =~= x1.skip(a1.len() + 2int));
    assert(b2 =~= x2.skip(a2.len() + 2int));
}

// ───────────────────────── builder call sequences ─────────────────────────

/// One call on a book builder.
pub enum BuilderCall {
    /// `set_book_title_if_absent`
    Title(Seq<char>),
    /// `push_chapter_title`
    ChapterTitle(Seq<char>),
    /// `push_paragraph`
    Paragraph(Seq<char>),
}

pub open spec fn apply_call(b: BuilderView, c: BuilderCall) -> BuilderView {
    match c {
        BuilderCall::Title(t) => crate::parse_utils::set_title_op(b, t),
        BuilderCall::ChapterTitle(t) => crate::parse_utils::chapter_title_op(b, t),
        BuilderCall::Paragraph(t) => crate::parse_utils::paragraph_op(b, t),
    }
}

/// The builder after the calls `cs`, in order, starting from `b`.
pub open spec fn apply_calls(b: BuilderView, cs: Seq<BuilderCall>) -> BuilderView
    decreases cs.len(),
{
    if cs.len() == 0 {
        b
    } else {
        apply_call(apply_calls(b, cs.drop_last()), cs.last())
    }
}

/// A call leaves a mark: a title or chapter title that is not blank once
/// collapsed, or a paragraph substantive once collapsed.
pub open spec fn leaves_mark(c: BuilderCall, o: crate::parse_utils::ParseOptions) -> bool {
    match c {
        BuilderCall::Title(t) => normalize(t).len() > 0,
        BuilderCall::ChapterTitle(t) => normalize(t).len() > 0,
        BuilderCall::Paragraph(t) => crate::parse_utils::substantive(normalize(t), o),
    }
}

/// The collapsed texts of the paragraphs the calls add, in call order.
pub open spec fn accepted_paragraphs(cs: Seq<BuilderCall>, o: crate::parse_utils::ParseOptions) -> Seq<Seq<char>>
    decreases cs.len(),
{
    if cs.len() == 0 {
        Seq::empty()
    } else {
        let prev = accepted_paragraphs(cs.drop_last(), o);
        match cs.last() {
            BuilderCall::Paragraph(t) => if crate::parse_utils::substantive(normalize(t), o) {
                prev.push(normalize(t))
            } else {
                prev
            },
            _ => prev,
        }
    }
}

/// The first title the calls set that is not blank once collapsed.
pub open spec fn first_title(cs: Seq<BuilderCall>) -> Option<Seq<char>>
    decreases cs.len(),
{
    if cs.len() == 0 {
        None
    } else {
        match first_title(cs.drop_last()) {
            Some(t) => Some(t),
            None => match cs.last() {
                BuilderCall::Title(t) => if normalize(t).len() > 0 {
                    Some(normalize(t))
                } else {
                    None
                },
                _ => None,
            },
        }
    }
}

/// The paragraph texts of `seeds`, in order.
pub open spec fn seed_texts(seeds: Seq<SeedView>) -> Seq<Seq<char>>
    decreases seeds.len(),
{
    if seeds.len() == 0 {
        Seq::empty()
    } else {
        seed_texts(seeds.drop_last()) + seeds.last().paragraphs
    }
}

/// The paragraph texts a builder holds, in order.
pub open spec fn builder_texts(b: BuilderView) -> Seq<Seq<char>> {
    seed_texts(b.chapters) + b.current.paragraphs
}

/// The paragraph texts of chapters, in order.
pub open spec fn chapter_texts(cs: Seq<ChapterView>) -> Seq<Seq<char>>
    decreases cs.len(),
{
    if cs.len() == 0 {
        Seq::empty()
    } else {
        chapter_texts(cs.drop_last()) + cs.last().paragraphs.map_values(|p: ParagraphView| p.text)
    }
}

proof fn lemma_flush_texts(b: BuilderView)
    ensures
        builder_texts(crate::parse_utils::flush_op(b)) == builder_texts(b),
        crate::parse_utils::flush_op(b).current.paragraphs.len() == 0 || crate::parse_utils::flush_op(b) == b,
{
    let f = crate::parse_utils::flush_op(b);
    if b.current.title is Some || b.current.paragraphs.len() > 0 {
        assert(f.chapters.drop_last() =~= b.chapters);
        assert(f.current.paragraphs =~= Seq::<Seq<char>>::empty());
        assert(builder_texts(f) =~= builder_texts(b));
    }
}

proof fn lemma_calls_state(d: Seq<char>, o: crate::parse_utils::ParseOptions, cs: Seq<BuilderCall>)
    ensures
        apply_calls(crate::parse_utils::new_builder(d, o), cs).options == o,
        apply_calls(crate::parse_utils::new_builder(d, o), cs).default_title == d,
        apply_calls(crate::parse_utils::new_builder(d, o), cs).book_title == first_title(cs),
        builder_texts(apply_calls(crate::parse_utils::new_builder(d, o), cs)) == accepted_paragraphs(cs, o),
        crate::parse_utils::pristine(apply_calls(crate::parse_utils::new_builder(d, o), cs)) <==> (
        forall|i: int| 0 <= i < cs.len() ==> !leaves_mark(#[trigger] cs[i], o)),
    decreases cs.len(),
{
    let b0 = crate::parse_utils::new_builder(d, o);
    if cs.len() == 0 {
        assert(seed_texts(b0.chapters) =~= Seq::<Seq<char>>::empty());
        assert(builder_texts(b0) =~= Seq::<Seq<char>>::empty());
    } else {
        let prev = cs.drop_last();
        lemma_calls_state(d, o, prev);
        let b = apply_calls(b0, prev);
        let c = cs.last();
        let n = apply_call(b, c);
        assert(apply_calls(b0, cs) == n);
        assert forall|i: int| 0 <= i < prev.len() implies prev[i] == cs[i] by {}
        match c {
            BuilderCall::Title(t) => {
                assert(builder_texts(n) == builder_texts(b));
            },
            BuilderCall::ChapterTitle(t) => {
                lemma_flush_texts(b);
                let f = crate::parse_utils::flush_op(b);
                if normalize(t).len() > 0 {
                    if b.current.paragraphs.len() == 0 {
                        assert(builder_texts(n) =~= builder_texts(b));
                    } else {
                        assert(builder_texts(n) =~= builder_texts(f));
                    }
                }
            },
            BuilderCall::Paragraph(t) => {
                if crate::parse_utils::substantive(normalize(t), o) {
                    assert(builder_texts(n) =~= builder_texts(b).push(normalize(t)));
                }
            },
        }
        if crate::parse_utils::pristine(n) {
            assert forall|i: int| 0 <= i < cs.len() implies !leaves_mark(#[trigger] cs[i], o) by {
                if i < prev.len() {
                    assert(cs[i] == prev[i]);
                }
            }
        }
        if forall|i: int| 0 <= i < cs.len() ==> !leaves_mark(#[trigger] cs[i], o) {
            assert forall|i: int| 0 <= i < prev.len() implies !leaves_mark(#[trigger] prev[i], o) by {
                assert(cs[i] == prev[i]);
            }
            assert(!leaves_mark(cs[cs.len() - 1], o));
        }
    }
}

proof fn lemma_seed_texts_build(seeds: Seq<SeedView>, slug: Seq<char>)
    ensures
        chapter_texts(build_chapters(seeds, slug)) == seed_texts(seeds),
        build_chapters(seeds, slug).len() == 0 <==> seed_texts(seeds).len() == 0,
    decreases seeds.len(),
{
    if seeds.len() > 0 {
        lemma_seed_texts_build(seeds.drop_last(), slug);
        let prev = build_chapters(seeds.drop_last(), slug);
        let seed = seeds.last();
        if seed.paragraphs.len() > 0 {
            let c = ChapterView {
                index: prev.len(),
                title: seed.title,
                paragraphs: seed_paragraphs(seed, slug, prev.len()),
            };
            assert(build_chapters(seeds, slug) == prev.push(c));
            assert(prev.push(c).drop_last() =~= prev);
            assert(c.paragraphs.map_values(|p: ParagraphView| p.text) =~= seed.paragraphs);
        } else {
            assert(seed.paragraphs =~= Seq::<Seq<char>>::empty());
            assert(seed_texts(seeds) =~= seed_texts(seeds.drop_last()));
        }
    }
}

/// Whatever calls are made on a new builder, it is still pristine exactly
/// when none of them left a mark: every title and chapter title was blank
/// once collapsed and no paragraph was substantive.
pub proof fn builder_stays_pristine_until_marked(
    d: Seq<char>,
    o: crate::parse_utils::ParseOptions,
    cs: Seq<BuilderCall>,
)
    ensures
        crate::parse_utils::pristine(apply_calls(crate::parse_utils::new_builder(d, o), cs)) <==> (
        forall|i: int| 0 <= i < cs.len() ==> !leaves_mark(#[trigger] cs[i], o)),
{
    lemma_calls_state(d, o, cs);
}

/// Whatever calls are made on a new builder, finishing fails exactly when no
/// paragraph was substantive; otherwise the book's paragraph texts, chapter
/// after chapter, are the accepted paragraphs in call order, its title is
/// the first non-blank title set (else the fallback title), and its slug is
/// that title's slug, else the fallback title's, else `book`, never empty.
pub proof fn finished_builder_keeps_every_accepted_paragraph(
    d: Seq<char>,
    o: crate::parse_utils::ParseOptions,
    cs: Seq<BuilderCall>,
)
    ensures
        finished_book(apply_calls(crate::parse_utils::new_builder(d, o), cs)) is None <==> (forall|i: int|
            0 <= i < cs.len() ==> !(#[trigger] cs[i] matches BuilderCall::Paragraph(t)
                && crate::parse_utils::substantive(normalize(t), o))),
        finished_book(apply_calls(crate::parse_utils::new_builder(d, o), cs)) matches Some(book) ==> {
            &&& chapter_texts(book.chapters) == accepted_paragraphs(cs, o)
            &&& book.title == (match first_title(cs) {
                Some(t) => t,
                None => d,
            })
            &&& book.slug == crate::parse_utils::slug_of(book.title, d)
            &&& book.slug.len() > 0
        },
{
    lemma_calls_state(d, o, cs);
    lemma_accepted_empty(cs, o);
    let b = apply_calls(crate::parse_utils::new_builder(d, o), cs);
    let f = crate::parse_utils::flush_op(b);
    lemma_flush_texts(b);
    assert(seed_texts(f.chapters) =~= builder_texts(f)) by {
        if !(f.current.paragraphs.len() == 0) {
            assert(f == b);
        }
    }
    let title = crate::parse_utils::book_title_of(f);
    let slug = crate::parse_utils::slug_of(title, f.default_title);
    lemma_seed_texts_build(f.chapters, slug);
    assert(f.book_title == b.book_title);
    if first_title(cs) matches Some(t) {
        lemma_first_title_nonblank(cs);
    }
}

proof fn lemma_first_title_nonblank(cs: Seq<BuilderCall>)
    ensures
        first_title(cs) matches Some(t) ==> t.len() > 0,
    decreases cs.len(),
{
    if cs.len() > 0 {
        lemma_first_title_nonblank(cs.drop_last());
    }
}

proof fn lemma_accepted_empty(cs: Seq<BuilderCall>, o: crate::parse_utils::ParseOptions)
    ensures
        accepted_paragraphs(cs, o).len() == 0 <==> (forall|i: int|
            0 <= i < cs.len() ==> !(#[trigger] cs[i] matches BuilderCall::Paragraph(t)
                && crate::parse_utils::substantive(normalize(t), o))),
    decreases cs.len(),
{
    if cs.len() > 0 {
        let prev = cs.drop_last();
        lemma_accepted_empty(prev, o);
        assert forall|i: int| 0 <= i < prev.len() implies prev[i] == cs[i] by {}
        if accepted_paragraphs(cs, o).len() == 0 {
            assert forall|i: int| 0 <= i < cs.len() implies !(#[trigger] cs[i] matches BuilderCall::Paragraph(t)
                && crate::parse_utils::substantive(normalize(t), o)) by {
                if i < prev.len() {
                    assert(cs[i] == prev[i]);
                }
            }
        }
        if forall|i: int| 0 <= i < cs.len() ==> !(#[trigger] cs[i] matches BuilderCall::Paragraph(t)
            && crate::parse_utils::substantive(normalize(t), o)) {
            assert forall|i: int| 0 <= i < prev.len() implies !(#[trigger] prev[i] matches BuilderCall::Paragraph(t)
                && crate::parse_utils::substantive(normalize(t), o)) by {
                assert(cs[i] == prev[i]);
            }
            let last = cs[cs.len() - 1];
            assert(!(last matches BuilderCall::Paragraph(t) && crate::parse_utils::substantive(normalize(t), o)));
        }
    }
}

/// Numbered chapters give every paragraph its own id.
pub proof fn numbered_ids_are_unique(cs: Seq<ChapterView>, slug: Seq<char>)
    requires
        numbered(cs, slug),
    ensures
        ids_unique(cs),
{
    assert forall|i1: int, j1: int, i2: int, j2: int|
        0 <= i1 < cs.len() && 0 <= j1 < cs[i1].paragraphs.len() && 0 <= i2 < cs.len() && 0 <= j2
            < cs[i2].paragraphs.len() && (i1 != i2 || j1 != j2) implies (
    #[trigger] cs[i1].paragraphs[j1]).id != (#[trigger] cs[i2].paragraphs[j2]).id by {
        if cs[i1].paragraphs[j1].id == cs[i2].paragraphs[j2].id {
            lemma_para_id_injective(slug, i1 as nat, j1 as nat, i2 as nat, j2 as nat);
        }
    }
}

proof fn lemma_build_chapters_numbered(seeds: Seq<SeedView>, slug: Seq<char>)
    ensures
        numbered(build_chapters(seeds, slug), slug),
    decreases seeds.len(),
{
    if seeds.len() > 0 {
        lemma_build_chapters_numbered(seeds.drop_last(), slug);
    }
}

proof fn lemma_epub_chapters_numbered(
    pages: Seq<Option<Seq<char>>>,
    slug: Seq<char>,
    o: crate::parse_utils::ParseOptions,
)
    ensures
        numbered(epub_chapters(pages, slug, o), slug),
    decreases pages.len(),
{
    if pages.len() > 0 {
        lemma_epub_chapters_numbered(pages.drop_last(), slug, o);
    }
}

/// A book the builder finishes numbers its chapters from zero, names each
/// paragraph `{slug}-ch{chapter:03}-p{para:04}`, and so gives every
/// paragraph its own id.
pub proof fn finished_book_ids_are_unique(b: BuilderView)
    ensures
        finished_book(b) matches Some(book) ==> numbered(book.chapters, book.slug) && ids_unique(
            book.chapters,
        ),
{
    let f = crate::parse_utils::flush_op(b);
    let slug = crate::parse_utils::slug_of(crate::parse_utils::book_title_of(f), f.default_title);
    lemma_build_chapters_numbered(f.chapters, slug);
    numbered_ids_are_unique(build_chapters(f.chapters, slug), slug);
}

/// An EPUB book numbers its chapters and names its paragraphs the same way,
/// so every paragraph has its own id.
pub proof fn epub_book_ids_are_unique(
    c: crate::epub::EpubView,
    default_title: Seq<char>,
    o: crate::parse_utils::ParseOptions,
)
    ensures
        numbered(crate::epub::epub_book(c, default_title, o).chapters, crate::epub::epub_book(c, default_title, o).slug),
        ids_unique(crate::epub::epub_book(c, default_title, o).chapters),
{
    let book = crate::epub::epub_book(c, default_title, o);
    lemma_epub_chapters_numbered(c.pages, book.slug, o);
    numbered_ids_are_unique(book.chapters, book.slug);
}

// ───────────────────────── translation batches ─────────────────────────

/// The sum of a sequence of sizes.
pub open spec fn seq_sum(s: Seq<nat>) -> nat
    decreases s.len(),
{
    if s.len() == 0 {
        0
    } else {
        seq_sum(s.drop_last()) + s.last()
    }
}

proof fn lemma_seq_sum_prepend(n: nat, s: Seq<nat>)
    ensures
        seq_sum(seq![n] + s) == n + seq_sum(s),
    decreases s.len(),
{
    if s.len() == 0 {
        assert(seq![n] + s =~= seq![n]);
        assert(seq![n].drop_last() =~= Seq::<nat>::empty());
        assert(seq_sum(seq![n]) == seq_sum(Seq::<nat>::empty()) + n);
    } else {
        assert((seq![n] + s).drop_last() =~= seq![n] + s.drop_last());
        assert((seq![n] + s).last() == s.last());
        lemma_seq_sum_prepend(n, s.drop_last());
    }
}

/// The items of a batch that respect the limits: between one and
/// `BATCH_MAX_ITEMS` of them, and, when there are several, none over
/// `SINGLE_PARAGRAPH_CHARS` and all together within `BATCH_HARD_MAX_CHARS`.
pub open spec fn within_limits(sizes: Seq<nat>) -> bool {
    &&& 1 <= sizes.len() <= BATCH_MAX_ITEMS
    &&& sizes.len() >= 2 ==> seq_sum(sizes) <= BATCH_HARD_MAX_CHARS && forall|j: int|
        0 <= j < sizes.len() ==> #[trigger] sizes[j] <= SINGLE_PARAGRAPH_CHARS
}

proof fn lemma_grow_within(c: Seq<nat>, start: int, k: nat, total: nat)
    requires
        0 <= start,
        1 <= k <= BATCH_MAX_ITEMS,
        start + k <= c.len(),
        total == seq_sum(c.subrange(start, start + k)),
        total <= BATCH_HARD_MAX_CHARS,
        forall|j: int| start <= j < start + k ==> #[trigger] c[j] <= SINGLE_PARAGRAPH_CHARS,
    ensures
        ({
            let l = grow_batch(c, start, k, total);
            &&& start + l <= c.len()
            &&& within_limits(c.subrange(start, start + l))
        }),
    decreases BATCH_MAX_ITEMS - k,
{
    crate::batching::lemma_grow_batch_bounds(c, start, k, total);
    if k < BATCH_MAX_ITEMS && !(k >= 2 && total >= crate::batching::BATCH_TARGET_CHARS) && start
        + k < c.len() && c[start + k] <= SINGLE_PARAGRAPH_CHARS && total + c[start + k]
        <= BATCH_HARD_MAX_CHARS {
        assert(c.subrange(start, start + k + 1).drop_last() =~= c.subrange(start, start + k));
        lemma_grow_within(c, start, k + 1, total + c[start + k]);
    } else {
        let s = c.subrange(start, start + k);
        assert forall|j: int| 0 <= j < s.len() implies #[trigger] s[j] <= SINGLE_PARAGRAPH_CHARS by {
            assert(s[j] == c[start + j]);
        }
    }
}

proof fn lemma_batch_within(c: Seq<nat>, start: int)
    requires
        0 <= start < c.len(),
    ensures
        start + batch_len_at(c, start) <= c.len(),
        within_limits(c.subrange(start, start + batch_len_at(c, start))),
{
    lemma_batch_len_bounds(c, start);
    if c[start] <= SINGLE_PARAGRAPH_CHARS {
        let s1 = c.subrange(start, start + 1);
        assert(s1.drop_last() =~= Seq::<nat>::empty());
        assert(s1.last() == c[start]);
        assert(seq_sum(s1.drop_last()) == 0);
        assert(seq_sum(s1) == seq_sum(s1.drop_last()) + s1.last());
        assert(seq_sum(s1) == c[start]);
        lemma_grow_within(c, start, 1, c[start]);
    }
}

proof fn lemma_plan_within(c: Seq<nat>, start: int, k: int)
    requires
        0 <= start,
        0 <= k < batch_plan_from(c, start).len(),
    ensures
        ({
            let plan = batch_plan_from(c, start);
            let off = start + seq_sum(plan.take(k));
            &&& off + plan[k] <= c.len()
            &&& within_limits(c.subrange(off, off + plan[k]))
        }),
    decreases c.len() - start,
{
    let plan = batch_plan_from(c, start);
    lemma_batch_len_bounds(c, start);
    let n = batch_len_at(c, start);
    let rest = batch_plan_from(c, start + n);
    assert(plan == seq![n] + rest);
    if k == 0 {
        assert(plan.take(0) =~= Seq::<nat>::empty());
        lemma_batch_within(c, start);
    } else {
        lemma_plan_within(c, start + n, k - 1);
        assert(plan.take(k) =~= seq![n] + rest.take(k - 1));
        lemma_seq_sum_prepend(n, rest.take(k - 1));
    }
}

proof fn lemma_flatten_len(b: Seq<Seq<PendingView>>)
    ensures
        flatten_len(b),
    decreases b.len(),
{
    if b.len() > 0 {
        lemma_flatten_len(b.drop_last());
        assert(crate::batching::batch_lens(b).drop_last() =~= crate::batching::batch_lens(
            b.drop_last(),
        ));
    }
}

spec fn flatten_len(b: Seq<Seq<PendingView>>) -> bool {
    crate::batching::flatten(b).len() == seq_sum(crate::batching::batch_lens(b))
}

proof fn lemma_flatten_segment(b: Seq<Seq<PendingView>>, k: int)
    requires
        0 <= k < b.len(),
    ensures
        ({
            let off: int = seq_sum(crate::batching::batch_lens(b).take(k)) as int;
            crate::batching::flatten(b).subrange(off, off + b[k].len()) == b[k]
        }),
    decreases b.len(),
{
    let lens = crate::batching::batch_lens(b);
    let prev = b.drop_last();
    lemma_flatten_len(prev);
    assert(lens.drop_last() =~= crate::batching::batch_lens(prev));
    let f = crate::batching::flatten(b);
    assert(f == crate::batching::flatten(prev) + b.last());
    if k == b.len() - 1 {
        assert(lens.take(k) =~= crate::batching::batch_lens(prev));
        assert(f.subrange(
            crate::batching::flatten(prev).len() as int,
            crate::batching::flatten(prev).len() + b.last().len() as int,
        ) =~= b.last());
    } else {
        lemma_flatten_segment(prev, k);
        assert(lens.take(k) =~= crate::batching::batch_lens(prev).take(k));
        let off: int = seq_sum(lens.take(k)) as int;
        lemma_sum_take_le(crate::batching::batch_lens(prev), k + 1);
        assert(crate::batching::batch_lens(prev).take(k + 1).drop_last() =~= crate::batching::batch_lens(prev).take(k));
        assert(f.subrange(off, off + b[k].len()) =~= crate::batching::flatten(prev).subrange(
            off,
            off + b[k].len(),
        ));
    }
}

proof fn lemma_sum_take_le(s: Seq<nat>, k: int)
    requires
        0 <= k <= s.len(),
    ensures
        seq_sum(s.take(k)) <= seq_sum(s),
    decreases s.len() - k,
{
    if k < s.len() {
        lemma_sum_take_le(s, k + 1);
        assert(s.take(k + 1).drop_last() =~= s.take(k));
    } else {
        assert(s.take(k) =~= s);
    }
}

/// Batching keeps every paragraph, in order, and each batch holds one to
/// `BATCH_MAX_ITEMS` paragraphs; a batch of several holds none over
/// `SINGLE_PARAGRAPH_CHARS` and stays within `BATCH_HARD_MAX_CHARS` in all,
/// so an oversized paragraph is always sent alone.
pub proof fn batches_respect_limits(pending: Seq<PendingView>, batches: Seq<Seq<PendingView>>)
    requires
        crate::batching::flatten(batches) == pending,
        crate::batching::batch_lens(batches) == batch_plan(sizes_of(pending)),
    ensures
        forall|k: int| 0 <= k < batches.len() ==> within_limits(sizes_of(#[trigger] batches[k])),
{
    let c = sizes_of(pending);
    assert forall|k: int| 0 <= k < batches.len() implies within_limits(sizes_of(#[trigger] batches[k])) by {
        let lens = crate::batching::batch_lens(batches);
        assert(lens.len() == batches.len());
        lemma_plan_within(c, 0, k);
        lemma_flatten_segment(batches, k);
        let off: int = seq_sum(lens.take(k)) as int;
        assert(lens[k] == batches[k].len());
        assert(sizes_of(batches[k]) =~= c.subrange(off, off + lens[k]));
    }
}

// ───────────────────────── resuming ─────────────────────────

/// A resumed run asks only for prose paragraphs that are not done yet and
/// whose text is not blank.
pub proof fn pending_skips_done(ps: Seq<ParagraphView>, done: Seq<Seq<char>>)
    ensures
        forall|k: int| 0 <= k < pending_of(ps, done).len() ==> !done.contains(
            (#[trigger] pending_of(ps, done)[k]).id,
        ) && crate::text::trim(pending_of(ps, done)[k].text).len() > 0,
    decreases ps.len(),
{
    if ps.len() > 0 {
        pending_skips_done(ps.drop_last(), done);
        let prev = pending_of(ps.drop_last(), done);
        let cur = pending_of(ps, done);
        assert forall|k: int| 0 <= k < cur.len() implies !done.contains((#[trigger] cur[k]).id)
            && crate::text::trim(cur[k].text).len() > 0 by {
            if k < prev.len() {
                assert(cur[k] == prev[k]);
            }
        }
    }
}

// ───────────────────────── plain-text lines ─────────────────────────

/// `t` is one of the lines of `ls`, trimmed.
pub open spec fn is_trimmed_line(t: Seq<char>, ls: Seq<Seq<char>>) -> bool {
    exists|k: int| 0 <= k < ls.len() && t == crate::text::trim(#[trigger] ls[k])
}

proof fn lemma_seg_hard(ls: Seq<Seq<char>>, o: crate::parse_utils::ParseOptions)
    requires
        o.txt_hard_linebreaks,
    ensures
        ({
            let st = crate::text_parser::seg_fold(ls, o);
            &&& st.current.len() <= 1
            &&& forall|k: int| 0 <= k < st.current.len() ==> is_trimmed_line(#[trigger] st.current[k], ls)
            &&& forall|k: int|
                0 <= k < st.blocks.len() ==> (#[trigger] st.blocks[k] matches crate::text_parser::BlockView::Paragraph(t)
                    ==> is_trimmed_line(t, ls))
        }),
    decreases ls.len(),
{
    if ls.len() > 0 {
        let prev_ls = ls.drop_last();
        lemma_seg_hard(prev_ls, o);
        let st = crate::text_parser::seg_fold(prev_ls, o);
        let l = ls.last();
        let t = crate::text::trim(l);
        assert(is_trimmed_line(t, ls)) by {
            assert(t == crate::text::trim(ls[ls.len() - 1]));
        }
        assert forall|x: Seq<char>| is_trimmed_line(x, prev_ls) implies is_trimmed_line(x, ls) by {
            let k = choose|k: int| 0 <= k < prev_ls.len() && x == crate::text::trim(#[trigger] prev_ls[k]);
            assert(ls[k] == prev_ls[k]);
        }
        let flushed = crate::text_parser::flush_lines(st.blocks, st.current);
        assert forall|k: int| 0 <= k < flushed.len() implies (#[trigger] flushed[k] matches crate::text_parser::BlockView::Paragraph(x)
            ==> is_trimmed_line(x, ls)) by {
            if k < st.blocks.len() {
                assert(flushed[k] == st.blocks[k]);
            } else {
                assert(st.current.len() == 1);
                assert(crate::search::join(st.current, " "@) == st.current[0]);
                assert(is_trimmed_line(st.current[0], prev_ls));
            }
        }
        let next = crate::text_parser::seg_fold(ls, o);
        assert(ls.drop_last() == prev_ls);
        assert forall|k: int| 0 <= k < next.blocks.len() implies (#[trigger] next.blocks[k] matches crate::text_parser::BlockView::Paragraph(x)
            ==> is_trimmed_line(x, ls)) by {
            if k < flushed.len() {
                assert(next.blocks[k] == flushed[k] || next.blocks[k] == st.blocks[k]);
                if k < st.blocks.len() {
                    assert(is_trimmed_line(block_text(st.blocks[k]), prev_ls) || !(st.blocks[k] is Paragraph));
                }
            }
        }
        assert forall|k: int| 0 <= k < next.current.len() implies is_trimmed_line(#[trigger] next.current[k], ls) by {
            if k < st.current.len() {
                assert(is_trimmed_line(st.current[k], prev_ls));
            }
        }
    }
}

/// The text a block holds, heading or paragraph.
spec fn block_text(b: crate::text_parser::BlockView) -> Seq<char> {
    match b {
        crate::text_parser::BlockView::Heading(t) => t,
        crate::text_parser::BlockView::Paragraph(t) => t,
    }
}

/// With hard line breaks, every paragraph of a plain text is one of its
/// lines, trimmed: no paragraph spans two lines.
pub proof fn hard_linebreaks_keep_lines_apart(raw: Seq<char>, o: crate::parse_utils::ParseOptions)
    requires
        o.txt_hard_linebreaks,
    ensures
        forall|k: int|
            0 <= k < crate::text_parser::segment_blocks(raw, o).len() ==> (
            #[trigger] crate::text_parser::segment_blocks(raw, o)[k] matches crate::text_parser::BlockView::Paragraph(t)
                ==> is_trimmed_line(t, crate::search::lines(crate::text_parser::unify_newlines(raw)))),
{
    let ls = crate::search::lines(crate::text_parser::unify_newlines(raw));
    lemma_seg_hard(ls, o);
    let st = crate::text_parser::seg_fold(ls, o);
    let out = crate::text_parser::segment_blocks(raw, o);
    assert forall|k: int| 0 <= k < out.len() implies (#[trigger] out[k] matches crate::text_parser::BlockView::Paragraph(t)
        ==> is_trimmed_line(t, ls)) by {
        if k < st.blocks.len() {
            assert(out[k] == st.blocks[k]);
        } else {
            assert(st.current.len() == 1);
            assert(crate::search::join(st.current, " "@) == st.current[0]);
        }
    }
}


// ───────────────────────── patching by paragraph id ─────────────────────────

/// A paragraph's block starts with the opening tag that names it.
proof fn lemma_marker_at_block_start(p: ParagraphView, old: Option<ResponseView>)
    ensures
        para_block(p, old).len() >= block_marker(p.id).len(),
        para_block(p, old).subrange(0, block_marker(p.id).len() as int) == block_marker(p.id),
{
    reveal_strlit("\" data-status=\"");
    lemma_block_layout(p, old);
    let b = crate::block_scan::block_pieces(p, old);
    let m = block_marker(p.id);
    assert(b.subrange(0, m.len() as int) =~= m);
}

/// The page's first `<div class="para-block" id="{id}"` is the block's own.
proof fn lemma_marker_in_block(pre: Seq<char>, post: Seq<char>, p: ParagraphView, old: Option<ResponseView>)
    requires
        forall|k: int|
            0 <= k < pre.len() ==> !#[trigger] matches_at(
                pre + para_block(p, old) + post,
                block_marker(p.id),
                k,
            ),
    ensures
        find(pre + para_block(p, old) + post, block_marker(p.id)) == Some(pre.len() as int),
{
    let block = para_block(p, old);
    let html = pre + block + post;
    let m = block_marker(p.id);
    let n = pre.len() as int;
    lemma_marker_at_block_start(p, old);
    assert(html.subrange(n, n + m.len() as int) =~= block.subrange(0, m.len() as int));
    lemma_find_from_skip(html, m, 0, n);
}

/// Patching a page replaces the block of the paragraph it is given: when the
/// paragraph's id holds no `<` and the page's first
/// `<div class="para-block" id="{id}"` opens that paragraph's block (pending
/// or already filled), that block gives way to the annotated block and the
/// rest of the page stays as it was. The newline that ended the old block
/// stays behind the new one.
pub proof fn patching_replaces_the_paragraph_block(
    pre: Seq<char>,
    post: Seq<char>,
    p: ParagraphView,
    old: Option<ResponseView>,
    resp: ResponseView,
)
    requires
        p.kind is Text,
        forall|k: int| 0 <= k < p.id.len() ==> p.id[k] != '<',
        forall|k: int|
            0 <= k < pre.len() ==> !#[trigger] matches_at(
                pre + para_block(p, old) + post,
                block_marker(p.id),
                k,
            ),
    ensures
        patched(pre + para_block(p, old) + post, p, resp) == pre + para_block(p, Some(resp))
            + seq!['\n'] + post,
{
    let block = para_block(p, old);
    let html = pre + block + post;
    let n = pre.len() as int;
    lemma_marker_in_block(pre, post, p, old);
    lemma_para_block_closes(p, old);
    assert(html.subrange(n, n + block.len()) =~= block);
    lemma_scan_slice(html, block, n, 0, 0);
    lemma_close_of_scan(html, n, 0);
    assert(close_of(html, n, 0) == Some(n + block.len() - 1));
    assert(html.take(n) =~= pre);
    assert(html.skip(n + block.len() - 1) =~= seq!['\n'] + post);
    assert(pre + para_block(p, Some(resp)) + (seq!['\n'] + post) =~= pre + para_block(p, Some(resp))
        + seq!['\n'] + post);
}

/// What follows a stretch does not change the matches that end inside it.
proof fn lemma_prefix_kept(a: Seq<char>, x: Seq<char>, y: Seq<char>, pat: Seq<char>, n: int)
    requires
        0 <= n,
        n + pat.len() <= a.len(),
        forall|k: int| 0 <= k < n ==> !#[trigger] matches_at(a + x, pat, k),
    ensures
        forall|k: int| 0 <= k < n ==> !#[trigger] matches_at(a + y, pat, k),
{
    assert forall|k: int| 0 <= k < n implies !#[trigger] matches_at(a + y, pat, k) by {
        assert((a + x).subrange(k, k + pat.len()) =~= a.subrange(k, k + pat.len()));
        assert((a + y).subrange(k, k + pat.len()) =~= a.subrange(k, k + pat.len()));
        assert(!matches_at(a + x, pat, k));
    }
}

/// The first paragraph's annotation, then the second's.
proof fn lemma_first_then_second(
    pre: Seq<char>,
    mid: Seq<char>,
    post: Seq<char>,
    p1: ParagraphView,
    old1: Option<ResponseView>,
    r1: ResponseView,
    p2: ParagraphView,
    old2: Option<ResponseView>,
    r2: ResponseView,
)
    requires
        p1.kind is Text,
        p2.kind is Text,
        forall|k: int| 0 <= k < p1.id.len() ==> p1.id[k] != '<',
        forall|k: int| 0 <= k < p2.id.len() ==> p2.id[k] != '<',
        forall|k: int|
            0 <= k < pre.len() ==> !#[trigger] matches_at(
                pre + para_block(p1, old1) + mid + para_block(p2, old2) + post,
                block_marker(p1.id),
                k,
            ),
        forall|k: int|
            0 <= k < (pre + para_block(p1, Some(r1)) + seq!['\n'] + mid).len() ==> !#[trigger] matches_at(
                pre + para_block(p1, Some(r1)) + seq!['\n'] + mid + para_block(p2, old2) + post,
                block_marker(p2.id),
                k,
            ),
    ensures
        patched(
            patched(pre + para_block(p1, old1) + mid + para_block(p2, old2) + post, p1, r1),
            p2,
            r2,
        ) == pre + para_block(p1, Some(r1)) + seq!['\n'] + mid + para_block(p2, Some(r2))
            + seq!['\n'] + post,
{
    let b1 = para_block(p1, old1);
    let b2 = para_block(p2, old2);
    let n1 = para_block(p1, Some(r1));
    let nl = seq!['\n'];
    assert(pre + b1 + mid + b2 + post =~= pre + b1 + (mid + b2 + post));
    patching_replaces_the_paragraph_block(pre, mid + b2 + post, p1, old1, r1);
    assert(pre + n1 + nl + (mid + b2 + post) =~= (pre + n1 + nl + mid) + b2 + post);
    patching_replaces_the_paragraph_block(pre + n1 + nl + mid, post, p2, old2, r2);
}

/// The second paragraph's annotation, then the first's.
proof fn lemma_second_then_first(
    pre: Seq<char>,
    mid: Seq<char>,
    post: Seq<char>,
    p1: ParagraphView,
    old1: Option<ResponseView>,
    r1: ResponseView,
    p2: ParagraphView,
    old2: Option<ResponseView>,
    r2: ResponseView,
)
    requires
        p1.kind is Text,
        p2.kind is Text,
        forall|k: int| 0 <= k < p1.id.len() ==> p1.id[k] != '<',
        forall|k: int| 0 <= k < p2.id.len() ==> p2.id[k] != '<',
        forall|k: int|
            0 <= k < pre.len() ==> !#[trigger] matches_at(
                pre + para_block(p1, old1) + mid + para_block(p2, old2) + post,
                block_marker(p1.id),
                k,
            ),
        forall|k: int|
            0 <= k < (pre + para_block(p1, old1) + mid).len() ==> !#[trigger] matches_at(
                pre + para_block(p1, old1) + mid + para_block(p2, old2) + post,
                block_marker(p2.id),
                k,
            ),
    ensures
        patched(
            patched(pre + para_block(p1, old1) + mid + para_block(p2, old2) + post, p2, r2),
            p1,
            r1,
        ) == pre + para_block(p1, Some(r1)) + seq!['\n'] + mid + para_block(p2, Some(r2))
            + seq!['\n'] + post,
{
    let b1 = para_block(p1, old1);
    let b2 = para_block(p2, old2);
    let n1 = para_block(p1, Some(r1));
    let n2 = para_block(p2, Some(r2));
    let nl = seq!['\n'];
    patching_replaces_the_paragraph_block(pre + b1 + mid, post, p2, old2, r2);
    assert(pre + b1 + mid + n2 + nl + post =~= pre + b1 + (mid + n2 + nl + post));
    lemma_block_layout(p1, old1);
    lemma_marker_at_block_start(p1, old1);
    assert(pre + b1 + mid + b2 + post =~= (pre + b1) + (mid + b2 + post));
    lemma_prefix_kept(pre + b1, mid + b2 + post, mid + n2 + nl + post, block_marker(p1.id), pre.len() as int);
    assert((pre + b1) + (mid + n2 + nl + post) == pre + b1 + (mid + n2 + nl + post));
    patching_replaces_the_paragraph_block(pre, mid + n2 + nl + post, p1, old1, r1);
    assert(pre + n1 + nl + (mid + n2 + nl + post) =~= pre + n1 + nl + mid + n2 + nl + post);
}

/// A stretch of `t` free of block starts stays free where `t` stands in `s`.
proof fn lemma_block_free_in(s: Seq<char>, t: Seq<char>, o: int, i: int, j: int)
    requires
        0 <= o,
        o + t.len() <= s.len(),
        s.subrange(o, o + t.len()) == t,
        0 <= i <= j <= t.len(),
        block_free(t, i, j),
    ensures
        forall|k: int| o + i <= k < o + j ==> #[trigger] no_block_start(s, k),
{
    assert forall|k: int| o + i <= k < o + j implies #[trigger] no_block_start(s, k) by {
        let q = k - o;
        assert(no_block_start(t, q));
        assert(s[k] == t[q]);
        if q + 1 < t.len() {
            assert(s[k + 1] == t[q + 1]);
        }
        if q + 2 < t.len() {
            assert(s[k + 2] == t[q + 2]);
        }
        if q + 3 < t.len() {
            assert(s[k + 3] == t[q + 3]);
        }
        if q + 12 < t.len() {
            assert(s[k + 12] == t[q + 12]);
        }
    }
}

/// What follows a common end is matched alike after different beginnings.
proof fn lemma_suffix_matches(u: Seq<char>, v: Seq<char>, x: Seq<char>, m: Seq<char>, j: int)
    requires
        0 <= j,
    ensures
        matches_at(u + x, m, u.len() + j) == matches_at(v + x, m, v.len() + j),
{
    if j + m.len() <= x.len() {
        assert((u + x).subrange(u.len() + j, u.len() + j + m.len()) =~= x.subrange(j, j + m.len()));
        assert((v + x).subrange(v.len() + j, v.len() + j + m.len()) =~= x.subrange(j, j + m.len()));
    }
}

proof fn lemma_marker_chars(id: Seq<char>)
    ensures
        block_marker(id).len() == 29 + id.len(),
        block_marker(id)[0] == '<',
        block_marker(id)[1] == 'd',
        block_marker(id)[2] == 'i',
        block_marker(id)[3] == 'v',
        block_marker(id)[12] == 'p',
        forall|j: int| 1 <= j < 28 ==> #[trigger] block_marker(id)[j] != '<',
        forall|j: int| 0 <= j < id.len() ==> #[trigger] block_marker(id)[28 + j] == id[j],
        block_marker(id)[28 + id.len() as int] == '"',
{
    reveal_strlit("<div class=\"para-block\" id=\"");
}

/// Once the first paragraph's block is annotated, the second paragraph's
/// opening tag is still the first of its kind on the page.
proof fn lemma_second_marker_after_patch(
    pre: Seq<char>,
    mid: Seq<char>,
    post: Seq<char>,
    p1: ParagraphView,
    old1: Option<ResponseView>,
    r1: ResponseView,
    p2: ParagraphView,
    old2: Option<ResponseView>,
)
    requires
        forall|k: int| 0 <= k < p1.id.len() ==> p1.id[k] != '<' && p1.id[k] != '"',
        forall|k: int| 0 <= k < p2.id.len() ==> p2.id[k] != '<' && p2.id[k] != '"',
        p1.id != p2.id,
        forall|k: int|
            0 <= k < (pre + para_block(p1, old1) + mid).len() ==> !#[trigger] matches_at(
                pre + para_block(p1, old1) + mid + para_block(p2, old2) + post,
                block_marker(p2.id),
                k,
            ),
    ensures
        forall|k: int|
            0 <= k < (pre + para_block(p1, Some(r1)) + seq!['\n'] + mid).len() ==> !#[trigger] matches_at(
                pre + para_block(p1, Some(r1)) + seq!['\n'] + mid + para_block(p2, old2) + post,
                block_marker(p2.id),
                k,
            ),
{
    let b1 = para_block(p1, old1);
    let n1 = para_block(p1, Some(r1));
    let b2 = para_block(p2, old2);
    let nl = seq!['\n'];
    let html = pre + b1 + mid + b2 + post;
    let h1 = pre + n1 + nl + mid + b2 + post;
    let m2 = block_marker(p2.id);
    let m1 = block_marker(p1.id);
    let a = pre.len() as int;
    let e = a + n1.len() + 1;
    let id1 = p1.id;
    let id2 = p2.id;
    lemma_marker_chars(id1);
    lemma_marker_chars(id2);
    lemma_marker_at_block_start(p1, Some(r1));
    lemma_para_block_opens_once(p1, Some(r1));
    assert(h1.subrange(a, a + n1.len()) =~= n1);
    lemma_block_free_in(h1, n1, a, 1, n1.len() as int);
    assert forall|j: int| 0 <= j < m1.len() implies h1[a + j] == #[trigger] m1[j] by {
        assert(n1.subrange(0, m1.len() as int)[j] == n1[j]);
    }
    assert(h1 =~= (pre + n1 + nl) + (mid + b2 + post));
    assert(html =~= (pre + b1) + (mid + b2 + post));
    assert forall|k: int| 0 <= k < (pre + n1 + nl + mid).len() implies !#[trigger] matches_at(
        h1,
        m2,
        k,
    ) by {
        if matches_at(h1, m2, k) {
            lemma_prefix_chars(h1, m2, k);
            if k < a {
                if k + m2.len() <= a {
                    assert(h1.subrange(k, k + m2.len()) =~= pre.subrange(k, k + m2.len()));
                    assert(html.subrange(k, k + m2.len()) =~= pre.subrange(k, k + m2.len()));
                    assert(matches_at(html, m2, k));
                } else {
                    let q = a - k;
                    assert(h1[k + q] == m2[q]);
                    assert(h1[a + 0] == m1[0]);
                    if q >= 28 && q < 28 + id2.len() {
                        assert(m2[28 + (q - 28)] == id2[q - 28]);
                    }
                }
            } else if k == a {
                if id1.len() == id2.len() {
                    assert forall|j: int| 0 <= j < id1.len() implies id1[j] == id2[j] by {
                        assert(h1[a + (28 + j)] == m1[28 + j]);
                        assert(h1[k + (28 + j)] == m2[28 + j]);
                    }
                    assert(id1 =~= id2);
                } else if id2.len() < id1.len() {
                    let j = id2.len() as int;
                    assert(h1[a + (28 + j)] == m1[28 + j]);
                    assert(h1[k + (28 + j)] == m2[28 + j]);
                } else {
                    let j = id1.len() as int;
                    assert(h1[a + (28 + j)] == m1[28 + j]);
                    assert(h1[k + (28 + j)] == m2[28 + j]);
                }
            } else if k < a + n1.len() {
                assert(no_block_start(h1, k));
                lemma_no_block_start(h1, m2, k);
            } else if k == a + n1.len() {
                assert(h1[k + 0] == m2[0]);
                assert(h1[k] == '\n');
            } else {
                let j = k - e;
                lemma_suffix_matches(pre + n1 + nl, pre + b1, mid + b2 + post, m2, j);
                assert(!matches_at(html, m2, (pre + b1).len() + j));
            }
        }
    }
}

/// Annotations land where they belong whatever order they arrive in: on a
/// page holding the blocks of two prose paragraphs with different ids (ids
/// without `<` or `"`), where each block's opening tag is the first of its
/// kind on the page, patching one and then the other gives the same page as
/// the other way round, each block replaced by its annotated block.
pub proof fn annotations_land_in_either_order(
    pre: Seq<char>,
    mid: Seq<char>,
    post: Seq<char>,
    p1: ParagraphView,
    old1: Option<ResponseView>,
    r1: ResponseView,
    p2: ParagraphView,
    old2: Option<ResponseView>,
    r2: ResponseView,
)
    requires
        p1.kind is Text,
        p2.kind is Text,
        forall|k: int| 0 <= k < p1.id.len() ==> p1.id[k] != '<' && p1.id[k] != '"',
        forall|k: int| 0 <= k < p2.id.len() ==> p2.id[k] != '<' && p2.id[k] != '"',
        p1.id != p2.id,
        forall|k: int|
            0 <= k < pre.len() ==> !#[trigger] matches_at(
                pre + para_block(p1, old1) + mid + para_block(p2, old2) + post,
                block_marker(p1.id),
                k,
            ),
        forall|k: int|
            0 <= k < (pre + para_block(p1, old1) + mid).len() ==> !#[trigger] matches_at(
                pre + para_block(p1, old1) + mid + para_block(p2, old2) + post,
                block_marker(p2.id),
                k,
            ),
    ensures
        patched(
            patched(pre + para_block(p1, old1) + mid + para_block(p2, old2) + post, p1, r1),
            p2,
            r2,
        ) == patched(
            patched(pre + para_block(p1, old1) + mid + para_block(p2, old2) + post, p2, r2),
            p1,
            r1,
        ),
        patched(
            patched(pre + para_block(p1, old1) + mid + para_block(p2, old2) + post, p1, r1),
            p2,
            r2,
        ) == pre + para_block(p1, Some(r1)) + seq!['\n'] + mid + para_block(p2, Some(r2))
            + seq!['\n'] + post,
{
    lemma_second_marker_after_patch(pre, mid, post, p1, old1, r1, p2, old2);
    lemma_first_then_second(pre, mid, post, p1, old1, r1, p2, old2, r2);
    lemma_second_then_first(pre, mid, post, p1, old1, r1, p2, old2, r2);
}


// ───────────────────────── sentence marks ─────────────────────────

/// The marks that end a sentence: `. ! ? 。 ！ ？ …`.
pub open spec fn sentence_mark(c: char) -> bool {
    ||| c == '.'
    ||| c == '!'
    ||| c == '?'
    ||| c == '\u{3002}'
    ||| c == '\u{ff01}'
    ||| c == '\u{ff1f}'
    ||| c == '\u{2026}'
}

/// `s` holds the character `c` somewhere.
pub open spec fn holds_char(s: Seq<char>, c: char) -> bool {
    exists|j: int| 0 <= j < s.len() && s[j] == c
}

proof fn lemma_trim_start_holds(s: Seq<char>, c: char)
    requires
        !is_ws(c),
        holds_char(s, c),
    ensures
        holds_char(crate::text::trim_start(s), c),
    decreases s.len(),
{
    if s.len() > 0 && is_ws(s[0]) {
        let j = choose|j: int| 0 <= j < s.len() && s[j] == c;
        assert(s.drop_first()[j - 1] == c);
        lemma_trim_start_holds(s.drop_first(), c);
    }
}

proof fn lemma_trim_end_holds(s: Seq<char>, c: char)
    requires
        !is_ws(c),
        holds_char(s, c),
    ensures
        holds_char(crate::text::trim_end(s), c),
    decreases s.len(),
{
    if s.len() > 0 && is_ws(s.last()) {
        let j = choose|j: int| 0 <= j < s.len() && s[j] == c;
        assert(s.drop_last()[j] == c);
        lemma_trim_end_holds(s.drop_last(), c);
    }
}

proof fn lemma_trim_holds(s: Seq<char>, c: char)
    requires
        !is_ws(c),
        holds_char(s, c),
    ensures
        holds_char(crate::text::trim(s), c),
{
    lemma_trim_start_holds(s, c);
    lemma_trim_end_holds(crate::text::trim_start(s), c);
}

proof fn lemma_leading_hashes_le(s: Seq<char>)
    ensures
        crate::parse_utils::leading_hashes(s) <= s.len(),
    decreases s.len(),
{
    if s.len() > 0 && s[0] == '#' {
        lemma_leading_hashes_le(s.drop_first());
    }
}

proof fn lemma_skip_hashes_holds(s: Seq<char>, c: char)
    requires
        c != '#',
        holds_char(s, c),
    ensures
        holds_char(s.skip(crate::parse_utils::leading_hashes(s) as int), c),
    decreases s.len(),
{
    if s.len() > 0 && s[0] == '#' {
        let j = choose|j: int| 0 <= j < s.len() && s[j] == c;
        let d = s.drop_first();
        assert(d[j - 1] == c);
        lemma_skip_hashes_holds(d, c);
        lemma_leading_hashes_le(d);
        assert(crate::parse_utils::leading_hashes(s) == 1 + crate::parse_utils::leading_hashes(d));
        assert(s.skip(crate::parse_utils::leading_hashes(s) as int) =~= d.skip(
            crate::parse_utils::leading_hashes(d) as int,
        ));
    } else {
        assert(s.skip(0) =~= s);
    }
}

proof fn lemma_trim_end_hashes_holds(s: Seq<char>, c: char)
    requires
        c != '#',
        holds_char(s, c),
    ensures
        holds_char(crate::parse_utils::trim_end_hashes(s), c),
    decreases s.len(),
{
    if s.len() > 0 && s.last() == '#' {
        let j = choose|j: int| 0 <= j < s.len() && s[j] == c;
        assert(s.drop_last()[j] == c);
        lemma_trim_end_hashes_holds(s.drop_last(), c);
    }
}

proof fn lemma_normalize_holds(s: Seq<char>, c: char)
    requires
        !is_ws(c),
        holds_char(s, c),
    ensures
        holds_char(normalize(s), c),
    decreases s.len(),
{
    let j = choose|j: int| 0 <= j < s.len() && s[j] == c;
    if j == s.len() - 1 {
        lemma_normalize_keeps_last(s);
        assert(normalize(s)[normalize(s).len() - 1] == c);
    } else {
        let d = s.drop_last();
        assert(d[j] == c);
        lemma_normalize_holds(d, c);
        let p = normalize(d);
        let k = choose|k: int| 0 <= k < p.len() && p[k] == c;
        let n = normalize(s);
        let last = s.last();
        if is_ws(last) {
            assert(n == p);
        } else if s.len() >= 2 && !is_ws(s[s.len() - 2]) {
            assert(n == p.push(last));
            assert(n[k] == c);
        } else if p.len() == 0 {
            assert(false);
        } else {
            assert(n == p.push(' ').push(last));
            assert(n[k] == c);
        }
    }
}

proof fn lemma_strip_heading_prefix_holds(text: Seq<char>, c: char)
    requires
        !is_ws(c),
        c != '#',
        holds_char(text, c),
    ensures
        holds_char(crate::parse_utils::strip_heading_prefix(text), c),
{
    let t = crate::text::trim(text);
    lemma_trim_holds(text, c);
    let h = crate::parse_utils::leading_hashes(t);
    if 1 <= h <= 6 {
        lemma_skip_hashes_holds(t, c);
        lemma_trim_holds(t.skip(h as int), c);
        let rest = crate::text::trim(t.skip(h as int));
        if rest.len() > 0 {
            lemma_trim_end_hashes_holds(rest, c);
            lemma_trim_holds(crate::parse_utils::trim_end_hashes(rest), c);
        }
    }
}

proof fn lemma_sentence_mark_char(c: char)
    requires
        sentence_mark(c),
    ensures
        !is_ws(c),
        c != '#',
        crate::text::is_sentence_punct(c),
{
}

/// A text that holds a sentence mark is no chapter heading unless the
/// chapter, Chinese or Roman heading pattern matches its heading text: a
/// short line in capitals that ends a sentence (`STOP!`) is speech.
pub proof fn punctuated_line_is_no_short_heading(text: Seq<char>, o: crate::parse_utils::ParseOptions)
    requires
        exists|j: int| 0 <= j < text.len() && sentence_mark(#[trigger] text[j]),
        !crate::patterns::regex_matches(
            crate::patterns::CHAPTER_HEADING_PATTERN@,
            normalize(crate::parse_utils::strip_heading_prefix(text)),
        ),
        !crate::patterns::regex_matches(
            crate::patterns::CHINESE_HEADING_PATTERN@,
            normalize(crate::parse_utils::strip_heading_prefix(text)),
        ),
        !crate::patterns::regex_matches(
            crate::patterns::ROMAN_HEADING_PATTERN@,
            normalize(crate::parse_utils::strip_heading_prefix(text)),
        ),
    ensures
        !crate::parse_utils::chapter_heading(text, o),
{
    let j = choose|j: int| 0 <= j < text.len() && sentence_mark(#[trigger] text[j]);
    let c = text[j];
    lemma_sentence_mark_char(c);
    lemma_strip_heading_prefix_holds(text, c);
    let t = normalize(crate::parse_utils::strip_heading_prefix(text));
    lemma_normalize_holds(crate::parse_utils::strip_heading_prefix(text), c);
    let k = choose|k: int| 0 <= k < t.len() && t[k] == c;
    assert(crate::text::is_sentence_punct(t[k]));
    assert(crate::text::has_punct(t));
}


// ───────────────────────── navigation pages ─────────────────────────

proof fn lemma_collected_are_collapsed(
    els: Seq<crate::epub::HtmlElementView>,
    o: crate::parse_utils::ParseOptions,
    divs: bool,
)
    ensures
        forall|k: int|
            0 <= k < crate::epub::collect_texts(els, o, divs).len() ==> normalize(
                #[trigger] crate::epub::collect_texts(els, o, divs)[k],
            ) == crate::epub::collect_texts(els, o, divs)[k],
    decreases els.len(),
{
    if els.len() > 0 {
        let prev = crate::epub::collect_texts(els.drop_last(), o, divs);
        lemma_collected_are_collapsed(els.drop_last(), o, divs);
        let cur = crate::epub::collect_texts(els, o, divs);
        let e = els.last();
        normalize_is_idempotent(crate::search::join(e.texts, " "@));
        assert forall|k: int| 0 <= k < cur.len() implies normalize(#[trigger] cur[k]) == cur[k] by {
            if k < prev.len() {
                assert(cur[k] == prev[k]);
            } else {
                assert(cur[k] == crate::epub::element_text(e));
            }
        }
    }
}

proof fn lemma_page_texts_collapsed(html: Seq<char>, o: crate::parse_utils::ParseOptions)
    ensures
        forall|k: int|
            0 <= k < crate::epub::page_texts(html, o).len() ==> normalize(
                #[trigger] crate::epub::page_texts(html, o)[k],
            ) == crate::epub::page_texts(html, o)[k],
{
    lemma_collected_are_collapsed(
        crate::epub::html_select_of(html, crate::epub::PRIMARY_BLOCK_SELECTOR@),
        o,
        false,
    );
    lemma_collected_are_collapsed(
        crate::epub::html_select_of(html, crate::epub::DIV_SELECTOR@),
        o,
        true,
    );
}

/// A page offering four texts or more, each under eight words and without a
/// sentence mark, is a table of contents: it gives no paragraphs.
pub proof fn short_entry_pages_give_no_paragraphs(html: Seq<char>, o: crate::parse_utils::ParseOptions)
    requires
        crate::epub::page_texts(html, o).len() >= 4,
        forall|i: int|
            0 <= i < crate::epub::page_texts(html, o).len() ==> crate::text::word_count(
                #[trigger] crate::epub::page_texts(html, o)[i],
            ) < 8 && forall|j: int|
                0 <= j < crate::epub::page_texts(html, o)[i].len() ==> !sentence_mark(
                    crate::epub::page_texts(html, o)[i][j],
                ),
    ensures
        crate::epub::text_blocks(html, o).len() == 0,
{
    let t = crate::epub::page_texts(html, o);
    lemma_page_texts_collapsed(html, o);
    assert forall|i: int| 0 <= i < t.len() implies (crate::epub::navigation_entry(
        #[trigger] t[i],
        o,
    ) || (crate::text::word_count(t[i]) <= 12 && !crate::parse_utils::sentence_like(t[i]))) by {
        assert(normalize(t[i]) == t[i]);
        if crate::text::has_punct(t[i]) {
            let j = choose|j: int|
                0 <= j < t[i].len() && crate::text::is_sentence_punct(#[trigger] t[i][j]);
            assert(!sentence_mark(t[i][j]));
        }
    }
    assert(crate::epub::navigation_page(t, o));
}

/// A page offering fewer than four texts, or a text that is no navigation
/// entry and has eight words or more or a sentence mark, gives its texts as
/// they are.
pub proof fn prose_pages_keep_their_texts(html: Seq<char>, o: crate::parse_utils::ParseOptions)
    requires
        crate::epub::page_texts(html, o).len() < 4 || exists|i: int|
            0 <= i < crate::epub::page_texts(html, o).len() && !crate::epub::navigation_entry(
                #[trigger] crate::epub::page_texts(html, o)[i],
                o,
            ) && (crate::text::word_count(crate::epub::page_texts(html, o)[i]) >= 8 || exists|j: int|
                0 <= j < crate::epub::page_texts(html, o)[i].len() && sentence_mark(
                    crate::epub::page_texts(html, o)[i][j],
                )),
    ensures
        crate::epub::text_blocks(html, o) == crate::epub::page_texts(html, o),
{
    let t = crate::epub::page_texts(html, o);
    lemma_page_texts_collapsed(html, o);
    if t.len() >= 4 {
        let i = choose|i: int|
            0 <= i < t.len() && !crate::epub::navigation_entry(#[trigger] t[i], o) && (
            crate::text::word_count(t[i]) >= 8 || exists|j: int|
                0 <= j < t[i].len() && sentence_mark(t[i][j]));
        assert(normalize(t[i]) == t[i]);
        if crate::text::word_count(t[i]) < 8 {
            let j = choose|j: int| 0 <= j < t[i].len() && sentence_mark(t[i][j]);
            lemma_sentence_mark_char(t[i][j]);
            assert(crate::text::has_punct(t[i]));
        }
        assert(crate::parse_utils::sentence_like(t[i]));
        assert(!crate::epub::navigation_page(t, o));
    }
}


// ───────────────────────── plain-text paragraphs ─────────────────────────

/// The characters after which a plain-text paragraph ends when sentence
/// splitting is on: the sentence marks, and the closing quotes and brackets
/// `" ' ” ’ ) 」 』`.
pub open spec fn closing_mark(c: char) -> bool {
    ||| sentence_mark(c)
    ||| c == '"'
    ||| c == '\''
    ||| c == '\u{201d}'
    ||| c == '\u{2019}'
    ||| c == ')'
    ||| c == '\u{300d}'
    ||| c == '\u{300f}'
}

/// A line that is neither blank, nor a scene break, nor a heading.
pub open spec fn plain_line(line: Seq<char>, o: crate::parse_utils::ParseOptions) -> bool {
    let t = crate::text::trim(line);
    &&& t.len() > 0
    &&& !crate::text_parser::scene_break(t)
    &&& crate::text_parser::classify_heading(t, o) is None
}

proof fn lemma_trim_end_last(s: Seq<char>)
    ensures
        crate::text::trim_end(s).len() > 0 ==> !is_ws(crate::text::trim_end(s).last()),
    decreases s.len(),
{
    if s.len() > 0 && is_ws(s.last()) {
        lemma_trim_end_last(s.drop_last());
    }
}

proof fn lemma_trimmed_line_ends(line: Seq<char>)
    requires
        crate::text::trim(line).len() > 0,
    ensures
        crate::text::trim_end(crate::text::trim(line)) == crate::text::trim(line),
        !is_ws(crate::text::trim(line).last()),
{
    lemma_trim_end_last(crate::text::trim_start(line));
}

proof fn lemma_plain_step(
    st: crate::text_parser::SegState,
    line: Seq<char>,
    o: crate::parse_utils::ParseOptions,
)
    requires
        plain_line(line, o),
    ensures
        ({
            let t = crate::text::trim(line);
            let indented = line.len() > 0 && (line[0] == ' ' || line[0] == '\t');
            let split = o.txt_hard_linebreaks || indented || (o.txt_split_on_sentence_end
                && st.prev_ended);
            let next = crate::text_parser::seg_step(st, line, o);
            &&& next.prev_ended == closing_mark(t.last())
            &&& st.current.len() > 0 && split ==> next.blocks == crate::text_parser::flush_lines(
                st.blocks,
                st.current,
            ) && next.current == seq![t]
            &&& !(st.current.len() > 0 && split) ==> next.blocks == st.blocks && next.current
                == st.current.push(t)
        }),
{
    lemma_trimmed_line_ends(line);
}

/// With sentence splitting on, a plain line whose last character is a
/// sentence mark or a closing quote or bracket ends its paragraph: the next
/// plain line opens a new one.
pub proof fn finished_sentence_ends_the_paragraph(
    ls: Seq<Seq<char>>,
    l1: Seq<char>,
    l2: Seq<char>,
    o: crate::parse_utils::ParseOptions,
)
    requires
        o.txt_split_on_sentence_end,
        plain_line(l1, o),
        plain_line(l2, o),
        closing_mark(crate::text::trim(l1).last()),
    ensures
        ({
            let before = crate::text_parser::seg_fold(ls.push(l1), o);
            let after = crate::text_parser::seg_fold(ls.push(l1).push(l2), o);
            &&& before.current.len() > 0
            &&& before.current.last() == crate::text::trim(l1)
            &&& after.blocks == before.blocks.push(
                crate::text_parser::BlockView::Paragraph(crate::search::join(before.current, " "@)),
            )
            &&& after.current == seq![crate::text::trim(l2)]
        }),
{
    let st = crate::text_parser::seg_fold(ls, o);
    assert(ls.push(l1).drop_last() == ls);
    assert(ls.push(l1).push(l2).drop_last() == ls.push(l1));
    lemma_plain_step(st, l1, o);
    let before = crate::text_parser::seg_fold(ls.push(l1), o);
    lemma_plain_step(before, l2, o);
}

/// Without hard line breaks, an unindented plain line that follows a plain
/// line ending in none of those marks joins the same paragraph.
pub proof fn unfinished_line_runs_on(
    ls: Seq<Seq<char>>,
    l1: Seq<char>,
    l2: Seq<char>,
    o: crate::parse_utils::ParseOptions,
)
    requires
        !o.txt_hard_linebreaks,
        plain_line(l1, o),
        plain_line(l2, o),
        !closing_mark(crate::text::trim(l1).last()),
        !(l2.len() > 0 && (l2[0] == ' ' || l2[0] == '\t')),
    ensures
        ({
            let before = crate::text_parser::seg_fold(ls.push(l1), o);
            let after = crate::text_parser::seg_fold(ls.push(l1).push(l2), o);
            &&& before.current.len() > 0
            &&& before.current.last() == crate::text::trim(l1)
            &&& after.blocks == before.blocks
            &&& after.current == before.current.push(crate::text::trim(l2))
        }),
{
    let st = crate::text_parser::seg_fold(ls, o);
    assert(ls.push(l1).drop_last() == ls);
    assert(ls.push(l1).push(l2).drop_last() == ls.push(l1));
    lemma_plain_step(st, l1, o);
    let before = crate::text_parser::seg_fold(ls.push(l1), o);
    lemma_plain_step(before, l2, o);
}

/// A plain line indented with a space or a tab opens a new paragraph after
/// a plain line.
pub proof fn indented_line_opens_a_paragraph(
    ls: Seq<Seq<char>>,
    l1: Seq<char>,
    l2: Seq<char>,
    o: crate::parse_utils::ParseOptions,
)
    requires
        plain_line(l1, o),
        plain_line(l2, o),
        l2.len() > 0 && (l2[0] == ' ' || l2[0] == '\t'),
    ensures
        ({
            let before = crate::text_parser::seg_fold(ls.push(l1), o);
            let after = crate::text_parser::seg_fold(ls.push(l1).push(l2), o);
            &&& before.current.len() > 0
            &&& after.blocks == before.blocks.push(
                crate::text_parser::BlockView::Paragraph(crate::search::join(before.current, " "@)),
            )
            &&& after.current == seq![crate::text::trim(l2)]
        }),
{
    let st = crate::text_parser::seg_fold(ls, o);
    assert(ls.push(l1).drop_last() == ls);
    assert(ls.push(l1).push(l2).drop_last() == ls.push(l1));
    lemma_plain_step(st, l1, o);
    let before = crate::text_parser::seg_fold(ls.push(l1), o);
    lemma_plain_step(before, l2, o);
}

// ───────────────────────── plain-text titles ─────────────────────────

proof fn lemma_apply_blocks_keeps_title(b: BuilderView, blocks: Seq<crate::text_parser::BlockView>)
    ensures
        crate::text_parser::apply_blocks(b, blocks).book_title == b.book_title,
        crate::text_parser::apply_blocks(b, blocks).default_title == b.default_title,
    decreases blocks.len(),
{
    if blocks.len() > 0 {
        lemma_apply_blocks_keeps_title(b, blocks.drop_last());
    }
}

/// When the first block of a plain text is a heading that is no chapter
/// heading, the book's title is that heading's collapsed text.
pub proof fn leading_plain_heading_titles_the_book(
    raw: Seq<char>,
    fallback: Seq<char>,
    o: crate::parse_utils::ParseOptions,
)
    requires
        crate::text_parser::segment_blocks(raw, o).len() > 0,
        crate::text_parser::segment_blocks(raw, o)[0] is Heading,
        !crate::parse_utils::chapter_heading(
            crate::text_parser::block_text(crate::text_parser::segment_blocks(raw, o)[0]),
            o,
        ),
        normalize(
            crate::text_parser::block_text(crate::text_parser::segment_blocks(raw, o)[0]),
        ).len() > 0,
    ensures
        crate::text_parser::text_book(raw, fallback, o) matches Some(book) ==> book.title
            == normalize(
            crate::text_parser::block_text(crate::text_parser::segment_blocks(raw, o)[0]),
        ),
{
    let blocks = crate::text_parser::segment_blocks(raw, o);
    let h = crate::text_parser::block_text(blocks[0]);
    let b0 = crate::parse_utils::new_builder(fallback, o);
    assert(crate::text_parser::first_block_is_title(blocks, o));
    let b1 = crate::parse_utils::set_title_op(b0, h);
    assert(b1.book_title == Some(normalize(h)));
    lemma_apply_blocks_keeps_title(b1, blocks.drop_first());
}


// ───────────────────────── Markdown headings ─────────────────────────

/// In a Markdown book a heading with text, of level 2 or 3, or of level 1
/// once the builder holds anything, starts a chapter titled with its
/// collapsed text; headings of levels 4 to 6 are added as paragraphs and
/// leave the chapter as it was titled.
pub proof fn markdown_heading_levels(b: BuilderView, level: u8, text: Seq<char>)
    requires
        crate::text::trim(text).len() > 0,
    ensures
        (2 <= level <= 3 || (level == 1 && !crate::parse_utils::pristine(b))) ==> ({
            let r = crate::markdown::push_block_op(b, crate::markdown::BlockKind::Heading(level), text);
            &&& r == crate::parse_utils::chapter_title_op(b, crate::text::trim(text))
            &&& r.current.title == Some(normalize(crate::text::trim(text)))
            &&& r.current.paragraphs.len() == 0
            &&& r.book_title == b.book_title
        }),
        4 <= level <= 6 ==> ({
            let r = crate::markdown::push_block_op(b, crate::markdown::BlockKind::Heading(level), text);
            &&& r == crate::parse_utils::paragraph_op(b, crate::text::trim(text))
            &&& r.current.title == b.current.title
            &&& r.chapters == b.chapters
            &&& r.book_title == b.book_title
        }),
        level == 1 && crate::parse_utils::pristine(b) && !crate::parse_utils::chapter_heading(
            crate::text::trim(text),
            b.options,
        ) ==> ({
            let r = crate::markdown::push_block_op(b, crate::markdown::BlockKind::Heading(level), text);
            &&& r.book_title == Some(normalize(crate::text::trim(text)))
            &&& r.chapters == b.chapters
            &&& r.current == b.current
        }),
        level == 1 && crate::parse_utils::pristine(b) && crate::parse_utils::chapter_heading(
            crate::text::trim(text),
            b.options,
        ) ==> crate::markdown::push_block_op(b, crate::markdown::BlockKind::Heading(level), text)
            == crate::parse_utils::chapter_title_op(b, crate::text::trim(text)),
        crate::markdown::push_block_op(b, crate::markdown::BlockKind::Paragraph, text)
            == crate::parse_utils::paragraph_op(b, crate::text::trim(text)),
        crate::markdown::push_block_op(b, crate::markdown::BlockKind::ListItem, text)
            == crate::parse_utils::paragraph_op(b, crate::text::trim(text)),
{
    lemma_trimmed_line_ends(text);
    lemma_normalize_keeps_last(crate::text::trim(text));
}


/// When the first block of a plain text is a paragraph that reads as a
/// title, the book's title is its collapsed text.
pub proof fn leading_title_line_titles_the_book(
    raw: Seq<char>,
    fallback: Seq<char>,
    o: crate::parse_utils::ParseOptions,
)
    requires
        crate::text_parser::segment_blocks(raw, o).len() > 0,
        crate::text_parser::segment_blocks(raw, o)[0] is Paragraph,
        crate::parse_utils::title_candidate(
            crate::text_parser::block_text(crate::text_parser::segment_blocks(raw, o)[0]),
            o,
        ),
    ensures
        crate::text_parser::text_book(raw, fallback, o) matches Some(book) ==> book.title
            == normalize(
            crate::text_parser::block_text(crate::text_parser::segment_blocks(raw, o)[0]),
        ),
{
    let blocks = crate::text_parser::segment_blocks(raw, o);
    let p = crate::text_parser::block_text(blocks[0]);
    let b0 = crate::parse_utils::new_builder(fallback, o);
    assert(crate::text_parser::first_block_is_title(blocks, o));
    let b1 = crate::parse_utils::set_title_op(b0, p);
    assert(b1.book_title == Some(normalize(p)));
    lemma_apply_blocks_keeps_title(b1, blocks.drop_first());
}

/// A plain text that opens with a chapter heading, with a paragraph that
/// does not read as a title, or with nothing, keeps the fallback title.
pub proof fn untitled_text_keeps_the_fallback(
    raw: Seq<char>,
    fallback: Seq<char>,
    o: crate::parse_utils::ParseOptions,
)
    requires
        crate::text_parser::segment_blocks(raw, o).len() == 0 || ({
            let first = crate::text_parser::segment_blocks(raw, o)[0];
            ||| first matches crate::text_parser::BlockView::Heading(h) && crate::parse_utils::chapter_heading(h, o)
            ||| first matches crate::text_parser::BlockView::Paragraph(p) && !crate::parse_utils::title_candidate(p, o)
        }),
    ensures
        crate::text_parser::text_book(raw, fallback, o) matches Some(book) ==> book.title == fallback,
{
    let blocks = crate::text_parser::segment_blocks(raw, o);
    let b0 = crate::parse_utils::new_builder(fallback, o);
    assert(!crate::text_parser::first_block_is_title(blocks, o));
    lemma_apply_blocks_keeps_title(b0, blocks);
}

} // verus!
