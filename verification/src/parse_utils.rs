//! Rules shared by every input format: which text is worth a paragraph, what
//! looks like a heading or a title, and the builder that turns a stream of
//! headings and paragraphs into a `Book`.
use vstd::prelude::*;
use crate::patterns::{
    regex_is_match, regex_matches, slugify, slugify_spec, CHAPTER_HEADING_PATTERN, CHINESE_HEADING_PATTERN,
    PAGE_NUMBER_PATTERN, ROMAN_HEADING_PATTERN,
};
use std::path::Path;
use crate::search::{slice_chars, strings_view};
use crate::types::{
    chapters_view, opt_view, paragraphs_view, BookError, Book, BookView, Chapter, ChapterView,
    KindView, Paragraph, ParagraphKind, ParagraphView,
};
use crate::text::{
    alphabetic_all_upper, alphabetic_all_upper_chars, chars_of, decimal, has_alphabetic,
    has_alphabetic_chars, has_alphanumeric, has_alphanumeric_chars, has_lowercase,
    has_lowercase_chars, has_punct, has_punct_chars, normalize, normalize_chars, normalize_text,
    padded_decimal, push_char, push_padded_decimal, string_from_chars, trim, trim_chars, word_count, word_count_chars,
};

verus! {

/// The tunable segmentation rules.
#[derive(Debug, Clone, Copy)]
pub struct ParseOptions {
    pub min_paragraph_chars: usize,
    pub title_max_words: usize,
    pub short_heading_max_words: usize,
    pub txt_hard_linebreaks: bool,
    pub txt_split_on_sentence_end: bool,
}

impl Default for ParseOptions {
    fn default() -> (r: Self)
        ensures
            r == (ParseOptions {
                min_paragraph_chars: 2,
                title_max_words: 12,
                short_heading_max_words: 8,
                txt_hard_linebreaks: false,
                txt_split_on_sentence_end: true,
            }),
    {
        ParseOptions {
            min_paragraph_chars: 2,
            title_max_words: 12,
            short_heading_max_words: 8,
            txt_hard_linebreaks: false,
            txt_split_on_sentence_end: true,
        }
    }
}

pub open spec fn bool_text(b: bool) -> Seq<char> {
    if b {
        "true"@
    } else {
        "false"@
    }
}

/// The one-line description of the rules printed at start-up.
pub open spec fn summary_text(o: ParseOptions) -> Seq<char> {
    "min-chars="@ + decimal(o.min_paragraph_chars as nat) + " · title<= "@ + decimal(
        o.title_max_words as nat,
    ) + " words · short-heading<= "@ + decimal(o.short_heading_max_words as nat)
        + " words · txt-hard-linebreaks="@ + bool_text(o.txt_hard_linebreaks)
        + " · txt-sentence-split="@ + bool_text(o.txt_split_on_sentence_end)
}

fn push_bool(s: &mut String, b: bool)
    ensures
        final(s)@ == old(s)@ + bool_text(b),
{
    if b {
        s.append("true");
    } else {
        s.append("false");
    }
}

impl ParseOptions {
    pub fn summary(&self) -> (r: String)
        ensures
            r@ == summary_text(*self),
    {
        let mut s = String::new();
        s.append("min-chars=");
        push_padded_decimal(&mut s, self.min_paragraph_chars, 0);
        s.append(" · title<= ");
        push_padded_decimal(&mut s, self.title_max_words, 0);
        s.append(" words · short-heading<= ");
        push_padded_decimal(&mut s, self.short_heading_max_words, 0);
        s.append(" words · txt-hard-linebreaks=");
        push_bool(&mut s, self.txt_hard_linebreaks);
        s.append(" · txt-sentence-split=");
        push_bool(&mut s, self.txt_split_on_sentence_end);
        assert(s@ == summary_text(*self));
        s
    }
}

// ───────────────────────── paragraph and heading rules ─────────────────────────

/// Whether `text`, once its whitespace is collapsed, is worth a paragraph: it
/// is not empty, holds a letter or digit, is not a page number, is long enough
/// or punctuated, and is not a short all-caps banner.
pub open spec fn substantive(text: Seq<char>, o: ParseOptions) -> bool {
    let t = normalize(text);
    &&& t.len() > 0
    &&& has_alphanumeric(t)
    &&& !regex_matches(PAGE_NUMBER_PATTERN@, t)
    &&& !(t.len() < o.min_paragraph_chars && !has_punct(t))
    &&& !(word_count(t) <= 4 && has_alphabetic(t) && !has_lowercase(t) && !has_punct(t))
}

pub fn is_substantive_chars(text: &[char], options: &ParseOptions) -> (r: bool)
    ensures
        r == substantive(text@, *options),
{
    let t = normalize_chars(text);
    if t.len() == 0 {
        return false;
    }
    if !has_alphanumeric_chars(t.as_slice()) {
        return false;
    }
    let ts = string_from_chars(t.as_slice());
    if regex_is_match(PAGE_NUMBER_PATTERN, ts.as_str()) {
        return false;
    }
    let punct = has_punct_chars(t.as_slice());
    if t.len() < options.min_paragraph_chars && !punct {
        return false;
    }
    let words = word_count_chars(t.as_slice());
    if words <= 4 && has_alphabetic_chars(t.as_slice()) && !has_lowercase_chars(t.as_slice())
        && !punct {
        return false;
    }
    true
}

/// Whether `text` is worth keeping as a paragraph.
pub fn is_substantive_text(text: &str, options: &ParseOptions) -> (r: bool)
    ensures
        r == substantive(text@, *options),
{
    let v = chars_of(text);
    is_substantive_chars(v.as_slice(), options)
}

/// The number of `#` characters that `s` starts with.
pub open spec fn leading_hashes(s: Seq<char>) -> nat
    decreases s.len(),
{
    if s.len() > 0 && s[0] == '#' {
        1 + leading_hashes(s.drop_first())
    } else {
        0
    }
}

/// `s` without its trailing `#` characters.
pub open spec fn trim_end_hashes(s: Seq<char>) -> Seq<char>
    decreases s.len(),
{
    if s.len() > 0 && s.last() == '#' {
        trim_end_hashes(s.drop_last())
    } else {
        s
    }
}

/// `text` trimmed, and when it opens with one to six `#` followed by some
/// text, that text without the `#` marks around it.
pub open spec fn strip_heading_prefix(text: Seq<char>) -> Seq<char> {
    let t = trim(text);
    let h = leading_hashes(t);
    if 1 <= h <= 6 {
        let rest = trim(t.skip(h as int));
        if rest.len() > 0 {
            trim(trim_end_hashes(rest))
        } else {
            t
        }
    } else {
        t
    }
}

proof fn lemma_leading_hashes_skip(s: Seq<char>, k: int)
    requires
        0 <= k <= s.len(),
        forall|j: int| 0 <= j < k ==> #[trigger] s[j] == '#',
    ensures
        leading_hashes(s) == k + leading_hashes(s.skip(k)),
    decreases k,
{
    if k > 0 {
        assert(s.drop_first().skip(k - 1) == s.skip(k));
        lemma_leading_hashes_skip(s.drop_first(), k - 1);
    } else {
        assert(s.skip(0) == s);
    }
}

pub fn strip_heading_prefix_chars(text: &[char]) -> (r: Vec<char>)
    ensures
        r@ == strip_heading_prefix(text@),
{
    let t = trim_chars(text);
    let mut h: usize = 0;
    while h < t.len() && t[h] == '#'
        invariant
            h <= t.len(),
            forall|j: int| 0 <= j < h ==> #[trigger] t@[j] == '#',
        decreases t.len() - h,
    {
        h = h + 1;
    }
    proof {
        lemma_leading_hashes_skip(t@, h as int);
        assert(leading_hashes(t@.skip(h as int)) == 0);
    }
    if 1 <= h && h <= 6 {
        let after = slice_chars(t.as_slice(), h, t.len());
        assert(after@ == t@.skip(h as int));
        let rest = trim_chars(after.as_slice());
        if rest.len() > 0 {
            let mut end = rest.len();
            assert(rest@.take(end as int) == rest@);
            while end > 0 && rest[end - 1] == '#'
                invariant
                    end <= rest.len(),
                    trim_end_hashes(rest@) == trim_end_hashes(rest@.take(end as int)),
                decreases end,
            {
                assert(rest@.take(end as int).drop_last() == rest@.take(end - 1));
                end = end - 1;
            }
            let core = slice_chars(rest.as_slice(), 0, end);
            assert(core@ == rest@.take(end as int));
            return trim_chars(core.as_slice());
        }
    }
    t
}

/// `text` with a Markdown heading prefix (`## Title ##`) removed, trimmed.
pub fn strip_markdown_heading_prefix(text: &str) -> (r: String)
    ensures
        r@ == strip_heading_prefix(text@),
{
    let v = chars_of(text);
    let r = strip_heading_prefix_chars(v.as_slice());
    string_from_chars(r.as_slice())
}

/// A short line whose letters are all capitals and which ends no sentence.
pub open spec fn short_upper_heading(t: Seq<char>, o: ParseOptions) -> bool {
    &&& word_count(t) > 0
    &&& word_count(t) <= o.short_heading_max_words
    &&& has_alphabetic(t)
    &&& alphabetic_all_upper(t)
    &&& !has_punct(t)
}

/// Whether `text` reads as a chapter heading: a structural word
/// (`Chapter`, `Part`, `Prologue`, ...), a Chinese chapter marker, a Roman
/// numbered part, or a short line in capitals.
pub open spec fn chapter_heading(text: Seq<char>, o: ParseOptions) -> bool {
    let t = normalize(strip_heading_prefix(text));
    &&& t.len() > 0
    &&& (regex_matches(CHAPTER_HEADING_PATTERN@, t) || regex_matches(CHINESE_HEADING_PATTERN@, t)
        || regex_matches(ROMAN_HEADING_PATTERN@, t) || short_upper_heading(t, o))
}

fn short_upper_heading_chars(t: &[char], options: &ParseOptions) -> (r: bool)
    ensures
        r == short_upper_heading(t@, *options),
{
    let words = word_count_chars(t);
    words > 0 && words <= options.short_heading_max_words && has_alphabetic_chars(t)
        && alphabetic_all_upper_chars(t) && !has_punct_chars(t)
}

pub fn chapter_heading_chars(text: &[char], options: &ParseOptions) -> (r: bool)
    ensures
        r == chapter_heading(text@, *options),
{
    let stripped = strip_heading_prefix_chars(text);
    let t = normalize_chars(stripped.as_slice());
    if t.len() == 0 {
        return false;
    }
    let ts = string_from_chars(t.as_slice());
    regex_is_match(CHAPTER_HEADING_PATTERN, ts.as_str()) || regex_is_match(
        CHINESE_HEADING_PATTERN,
        ts.as_str(),
    ) || regex_is_match(ROMAN_HEADING_PATTERN, ts.as_str()) || short_upper_heading_chars(
        t.as_slice(),
        options,
    )
}

/// Whether `text` reads as a chapter heading.
pub fn looks_like_chapter_heading(text: &str, options: &ParseOptions) -> (r: bool)
    ensures
        r == chapter_heading(text@, *options),
{
    let v = chars_of(text);
    chapter_heading_chars(v.as_slice(), options)
}

/// A short line that is no heading and no sentence: a likely book title.
pub open spec fn title_candidate(text: Seq<char>, o: ParseOptions) -> bool {
    let t = normalize(text);
    &&& t.len() > 0
    &&& !chapter_heading(t, o)
    &&& word_count(t) <= o.title_max_words
    &&& !has_punct(t)
}

pub fn title_candidate_chars(text: &[char], options: &ParseOptions) -> (r: bool)
    ensures
        r == title_candidate(text@, *options),
{
    let t = normalize_chars(text);
    t.len() > 0 && !chapter_heading_chars(t.as_slice(), options) && word_count_chars(
        t.as_slice(),
    ) <= options.title_max_words && !has_punct_chars(t.as_slice())
}

/// Whether `text` could be the book's title.
pub fn looks_like_book_title_candidate(text: &str, options: &ParseOptions) -> (r: bool)
    ensures
        r == title_candidate(text@, *options),
{
    let v = chars_of(text);
    title_candidate_chars(v.as_slice(), options)
}

/// Eight words or more, or sentence punctuation.
pub open spec fn sentence_like(text: Seq<char>) -> bool {
    let t = normalize(text);
    word_count(t) >= 8 || has_punct(t)
}

pub fn sentence_like_chars(text: &[char]) -> (r: bool)
    ensures
        r == sentence_like(text@),
{
    let t = normalize_chars(text);
    word_count_chars(t.as_slice()) >= 8 || has_punct_chars(t.as_slice())
}

/// Whether `text` reads as a sentence.
pub fn looks_like_sentence(text: &str) -> (r: bool)
    ensures
        r == sentence_like(text@),
{
    let v = chars_of(text);
    sentence_like_chars(v.as_slice())
}

/// Whether `text` holds one of `. ! ? 。 ！ ？ …`.
pub fn has_sentence_punctuation(text: &str) -> (r: bool)
    ensures
        r == has_punct(text@),
{
    let v = chars_of(text);
    has_punct_chars(v.as_slice())
}

// ───────────────────────── the book builder ─────────────────────────

/// A chapter being collected: its title, if any, and its paragraph texts.
#[derive(Debug, Clone)]
pub struct ChapterSeed {
    pub title: Option<String>,
    pub paragraphs: Vec<String>,
}

pub struct SeedView {
    pub title: Option<Seq<char>>,
    pub paragraphs: Seq<Seq<char>>,
}

impl View for ChapterSeed {
    type V = SeedView;

    open spec fn view(&self) -> SeedView {
        SeedView { title: opt_view(self.title), paragraphs: strings_view(self.paragraphs@) }
    }
}

pub open spec fn empty_seed() -> SeedView {
    SeedView { title: None, paragraphs: Seq::empty() }
}

impl Default for ChapterSeed {
    fn default() -> (r: Self)
        ensures
            r@ == empty_seed(),
    {
        let r = ChapterSeed { title: None, paragraphs: Vec::new() };
        assert(r@.paragraphs =~= Seq::<Seq<char>>::empty());
        r
    }
}

pub open spec fn seeds_view(v: Seq<ChapterSeed>) -> Seq<SeedView> {
    v.map_values(|s: ChapterSeed| s@)
}

/// Collects a book title, chapter titles and paragraphs in reading order.
#[derive(Debug, Clone)]
pub struct BookBuilder {
    options: ParseOptions,
    default_title: String,
    book_title: Option<String>,
    chapters: Vec<ChapterSeed>,
    current: ChapterSeed,
}

/// What a builder holds: the rules, the fallback title, the title found so
/// far, the chapters closed so far, and the chapter being collected.
pub struct BuilderView {
    pub options: ParseOptions,
    pub default_title: Seq<char>,
    pub book_title: Option<Seq<char>>,
    pub chapters: Seq<SeedView>,
    pub current: SeedView,
}

impl View for BookBuilder {
    type V = BuilderView;

    closed spec fn view(&self) -> BuilderView {
        BuilderView {
            options: self.options,
            default_title: self.default_title@,
            book_title: opt_view(self.book_title),
            chapters: seeds_view(self.chapters@),
            current: self.current@,
        }
    }
}

pub open spec fn new_builder(default_title: Seq<char>, options: ParseOptions) -> BuilderView {
    BuilderView {
        options,
        default_title,
        book_title: None,
        chapters: Seq::empty(),
        current: empty_seed(),
    }
}

/// Nothing has been collected yet.
pub open spec fn pristine(b: BuilderView) -> bool {
    &&& b.book_title is None
    &&& b.chapters.len() == 0
    &&& b.current.title is None
    &&& b.current.paragraphs.len() == 0
}

/// Closes the chapter being collected, when it has a title or a paragraph.
pub open spec fn flush_op(b: BuilderView) -> BuilderView {
    if b.current.title is Some || b.current.paragraphs.len() > 0 {
        BuilderView { chapters: b.chapters.push(b.current), current: empty_seed(), ..b }
    } else {
        b
    }
}

/// Records the book title, collapsed, unless it is empty or a title is known.
pub open spec fn set_title_op(b: BuilderView, title: Seq<char>) -> BuilderView {
    let t = normalize(title);
    if t.len() > 0 && b.book_title is None {
        BuilderView { book_title: Some(t), ..b }
    } else {
        b
    }
}

/// Starts a chapter with the collapsed title; a chapter without paragraphs
/// yet only has its title replaced.
pub open spec fn chapter_title_op(b: BuilderView, title: Seq<char>) -> BuilderView {
    let t = normalize(title);
    if t.len() == 0 {
        b
    } else if b.current.paragraphs.len() == 0 {
        BuilderView { current: SeedView { title: Some(t), ..b.current }, ..b }
    } else {
        let f = flush_op(b);
        BuilderView { current: SeedView { title: Some(t), ..f.current }, ..f }
    }
}

/// Adds the collapsed text to the current chapter when it is substantive.
pub open spec fn paragraph_op(b: BuilderView, text: Seq<char>) -> BuilderView {
    let t = normalize(text);
    if substantive(t, b.options) {
        BuilderView {
            current: SeedView { paragraphs: b.current.paragraphs.push(t), ..b.current },
            ..b
        }
    } else {
        b
    }
}

/// `{slug}-ch{chapter:03}-p{para:04}`
pub open spec fn para_id(slug: Seq<char>, chapter: nat, para: nat) -> Seq<char> {
    slug + seq!['-', 'c', 'h'] + padded_decimal(chapter, 3) + seq!['-', 'p'] + padded_decimal(
        para,
        4,
    )
}

/// The paragraphs of chapter number `index` made from the texts of `seed`.
pub open spec fn seed_paragraphs(seed: SeedView, slug: Seq<char>, index: nat) -> Seq<
    ParagraphView,
> {
    Seq::new(
        seed.paragraphs.len(),
        |j: int|
            ParagraphView {
                id: para_id(slug, index, j as nat),
                text: seed.paragraphs[j],
                kind: KindView::Text,
            },
    )
}

/// The chapters made from `seeds`: those without paragraphs are dropped, the
/// others numbered from zero in order.
pub open spec fn build_chapters(seeds: Seq<SeedView>, slug: Seq<char>) -> Seq<ChapterView>
    decreases seeds.len(),
{
    if seeds.len() == 0 {
        Seq::empty()
    } else {
        let prev = build_chapters(seeds.drop_last(), slug);
        let seed = seeds.last();
        if seed.paragraphs.len() == 0 {
            prev
        } else {
            prev.push(
                ChapterView {
                    index: prev.len(),
                    title: seed.title,
                    paragraphs: seed_paragraphs(seed, slug, prev.len()),
                },
            )
        }
    }
}

/// The title found, or the fallback title.
pub open spec fn book_title_of(b: BuilderView) -> Seq<char> {
    match b.book_title {
        Some(t) => if t.len() > 0 {
            t
        } else {
            b.default_title
        },
        None => b.default_title,
    }
}

/// The slug of the title, else of the fallback title, else `book`.
pub open spec fn slug_of(title: Seq<char>, default_title: Seq<char>) -> Seq<char> {
    let s1 = slugify_spec(title);
    let s2 = slugify_spec(default_title);
    if s1.len() > 0 {
        s1
    } else if s2.len() > 0 {
        s2
    } else {
        seq!['b', 'o', 'o', 'k']
    }
}

/// The book a builder holds once the current chapter is closed, or `None`
/// when no chapter has a paragraph.
pub open spec fn finished_book(b: BuilderView) -> Option<BookView> {
    let f = flush_op(b);
    let title = book_title_of(f);
    let slug = slug_of(title, f.default_title);
    let chapters = build_chapters(f.chapters, slug);
    if chapters.len() == 0 {
        None
    } else {
        Some(BookView { slug, title, chapters })
    }
}

fn clone_opt_string(o: &Option<String>) -> (r: Option<String>)
    ensures
        opt_view(r) == opt_view(*o),
{
    match o {
        Some(s) => Some(s.clone()),
        None => None,
    }
}

/// `{slug}-ch{chapter:03}-p{para:04}`
pub fn paragraph_id(slug: &str, chapter: usize, para: usize) -> (r: String)
    ensures
        r@ == para_id(slug@, chapter as nat, para as nat),
{
    let mut s = String::new();
    s.append(slug);
    push_char(&mut s, '-');
    push_char(&mut s, 'c');
    push_char(&mut s, 'h');
    push_padded_decimal(&mut s, chapter, 3);
    push_char(&mut s, '-');
    push_char(&mut s, 'p');
    push_padded_decimal(&mut s, para, 4);
    assert(s@ == para_id(slug@, chapter as nat, para as nat));
    s
}

/// Calls `Path::display` and converts it to a `String`: how a path reads in
/// messages. What it gives depends on the platform, so nothing is claimed
/// of it.
#[verifier::external_body]
pub(crate) fn display_path(path: &Path) -> String {
    path.display().to_string()
}

impl BookBuilder {
    pub fn new(default_title: &str, options: ParseOptions) -> (r: Self)
        ensures
            r@ == new_builder(default_title@, options),
    {
        let mut d = String::new();
        d.append(default_title);
        let r = BookBuilder {
            options,
            default_title: d,
            book_title: None,
            chapters: Vec::new(),
            current: ChapterSeed::default(),
        };
        assert(seeds_view(r.chapters@) =~= Seq::<SeedView>::empty());
        r
    }

    pub fn is_pristine(&self) -> (r: bool)
        ensures
            r == pristine(self@),
    {
        self.book_title.is_none() && self.chapters.len() == 0 && self.current.title.is_none()
            && self.current.paragraphs.len() == 0
    }

    pub fn set_book_title_if_absent(&mut self, title: &str)
        ensures
            final(self)@ == set_title_op(old(self)@, title@),
    {
        let title = normalize_text(title);
        if title.as_str().unicode_len() > 0 && self.book_title.is_none() {
            self.book_title = Some(title);
        }
    }

    fn flush_current(&mut self)
        ensures
            final(self)@ == flush_op(old(self)@),
    {
        if self.current.title.is_some() || self.current.paragraphs.len() > 0 {
            let mut taken = ChapterSeed::default();
            std::mem::swap(&mut taken, &mut self.current);
            self.chapters.push(taken);
            assert(seeds_view(self.chapters@) =~= seeds_view(old(self).chapters@).push(
                old(self).current@,
            ));
        }
    }

    pub fn push_chapter_title(&mut self, title: &str)
        ensures
            final(self)@ == chapter_title_op(old(self)@, title@),
    {
        let title = normalize_text(title);
        if title.as_str().unicode_len() == 0 {
            return;
        }
        if self.current.paragraphs.len() == 0 {
            self.current.title = Some(title);
        } else {
            self.flush_current();
            self.current.title = Some(title);
        }
    }

    pub fn push_paragraph(&mut self, text: &str)
        ensures
            final(self)@ == paragraph_op(old(self)@, text@),
    {
        let text = normalize_text(text);
        let ghost tv = text@;
        if is_substantive_text(text.as_str(), &self.options) {
            self.current.paragraphs.push(text);
            assert(strings_view(self.current.paragraphs@) =~= strings_view(
                old(self).current.paragraphs@,
            ).push(tv));
        }
    }

    /// Closes the current chapter and numbers chapters and paragraphs.
    pub fn finish(self, path: &Path) -> (r: Result<Book, BookError>)
        ensures
            match finished_book(self@) {
                Some(book) => r matches Ok(b) && b@ == book,
                None => r matches Err(e) && e is NoReadableParagraphs,
            },
    {
        let mut b = self;
        b.flush_current();
        let ghost f = b@;
        let title = match &b.book_title {
            Some(t) => if t.as_str().unicode_len() > 0 {
                t.clone()
            } else {
                b.default_title.clone()
            },
            None => b.default_title.clone(),
        };
        assert(title@ == book_title_of(f));
        let s1 = slugify(title.as_str());
        let slug = if s1.as_str().unicode_len() > 0 {
            s1
        } else {
            let s2 = slugify(b.default_title.as_str());
            if s2.as_str().unicode_len() > 0 {
                s2
            } else {
                let mut s = String::new();
                push_char(&mut s, 'b');
                push_char(&mut s, 'o');
                push_char(&mut s, 'o');
                push_char(&mut s, 'k');
                s
            }
        };
        assert(slug@ == slug_of(title@, f.default_title));
        let mut chapters: Vec<Chapter> = Vec::new();
        let n = b.chapters.len();
        let mut i: usize = 0;
        while i < n
            invariant
                n == b.chapters.len(),
                i <= n,
                f == b@,
                chapters_view(chapters@) == build_chapters(f.chapters.take(i as int), slug@),
            decreases n - i,
        {
            assert(f.chapters.take(i + 1).drop_last() == f.chapters.take(i as int));
            assert(f.chapters[i as int] == b.chapters@[i as int]@);
            let seed = &b.chapters[i];
            if seed.paragraphs.len() > 0 {
                let index = chapters.len();
                let ghost expected = seed_paragraphs(seed@, slug@, index as nat);
                let mut paragraphs: Vec<Paragraph> = Vec::new();
                let m = seed.paragraphs.len();
                let mut j: usize = 0;
                while j < m
                    invariant
                        m == seed.paragraphs.len(),
                        j <= m,
                        expected == seed_paragraphs(seed@, slug@, index as nat),
                        paragraphs_view(paragraphs@) == expected.take(j as int),
                    decreases m - j,
                {
                    let id = paragraph_id(slug.as_str(), index, j);
                    let text = seed.paragraphs[j].clone();
                    let p = Paragraph { id, text, kind: ParagraphKind::Text };
                    assert(p@ == expected[j as int]);
                    let ghost before = paragraphs@;
                    paragraphs.push(p);
                    assert(paragraphs_view(paragraphs@) =~= paragraphs_view(before).push(
                        expected[j as int],
                    ));
                    assert(expected.take(j + 1) =~= expected.take(j as int).push(
                        expected[j as int],
                    ));
                    j = j + 1;
                }
                assert(expected.take(m as int) == expected);
                let c = Chapter { index, title: clone_opt_string(&seed.title), paragraphs };
                chapters.push(c);
                assert(chapters_view(chapters@) =~= build_chapters(
                    f.chapters.take(i + 1),
                    slug@,
                ));
            }
            i = i + 1;
        }
        assert(f.chapters.take(n as int) == f.chapters);
        if chapters.len() == 0 {
            return Err(BookError::NoReadableParagraphs(display_path(path)));
        }
        Ok(Book { slug, title, chapters })
    }
}

/// The title made from a file stem: the stem trimmed, or `Untitled` when
/// there is none or it is blank.
pub open spec fn title_from_stem(stem: Option<Seq<char>>) -> Seq<char> {
    match stem {
        Some(s) => if trim(s).len() > 0 {
            trim(s)
        } else {
            "Untitled"@
        },
        None => "Untitled"@,
    }
}

/// The fallback title for a file whose stem is `stem`.
pub fn title_from_file_stem(stem: Option<&str>) -> (r: String)
    ensures
        r@ == title_from_stem(
            match stem {
                Some(s) => Some(s@),
                None => None,
            },
        ),
{
    match stem {
        Some(s) => {
            let v = chars_of(s);
            let t = trim_chars(v.as_slice());
            if t.len() > 0 {
                string_from_chars(t.as_slice())
            } else {
                String::from_str("Untitled")
            }
        },
        None => String::from_str("Untitled"),
    }
}

/// Calls `Path::file_stem` and converts the stem with `OsStr::to_string_lossy`.
/// What it returns depends on the platform's path separators, so nothing is
/// claimed of it.
#[verifier::external_body]
fn path_file_stem(path: &Path) -> (r: Option<String>) {
    path.file_stem().map(|s| s.to_string_lossy().into_owned())
}

/// The fallback title for `path`: its file stem, trimmed, or `Untitled`.
pub fn default_title_from_path(path: &Path) -> (r: String)
    ensures
        exists|stem: Option<Seq<char>>| r@ == title_from_stem(stem),
{
    let stem = path_file_stem(path);
    let r = match &stem {
        Some(s) => title_from_file_stem(Some(s.as_str())),
        None => title_from_file_stem(None),
    };
    assert(r@ == title_from_stem(opt_view(stem)));
    r
}

/// `r` is the book `expected` describes, or, when it describes none, the
/// error that no readable paragraph was found.
pub open spec fn book_result(r: Result<Book, BookError>, expected: Option<BookView>) -> bool {
    match expected {
        Some(bv) => r matches Ok(b) && b@ == bv,
        None => r matches Err(e) && e is NoReadableParagraphs,
    }
}

} // verus!
