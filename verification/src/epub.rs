//! EPUB books: each spine page is an HTML document whose block elements
//! become paragraphs; navigation-like pages are dropped.
use vstd::prelude::*;
use std::path::Path;
use crate::parse_utils::{
    chapter_heading, chapter_heading_chars, default_title_from_path, display_path,
    is_substantive_chars, para_id, paragraph_id, sentence_like, sentence_like_chars, slug_of,
    substantive, title_from_stem, ParseOptions,
};
use crate::patterns::slugify;
use crate::search::{join, join_strings, strings_view};
use crate::text::{
    chars_equal, chars_of, eq_ignore_ascii_case, eq_ignore_ascii_case_chars, normalize,
    normalize_chars, push_char, string_from_chars, trim, trim_chars, word_count,
    word_count_chars,
};
use crate::types::{
    chapters_view, opt_view, paragraphs_view, Book, BookError, BookView, Chapter, ChapterView,
    KindView, Paragraph, ParagraphKind, ParagraphView,
};

verus! {

/// The elements read as paragraph blocks.
pub const PRIMARY_BLOCK_SELECTOR: &'static str = "p, blockquote, li";

/// The elements read when a page has no paragraph blocks.
pub const DIV_SELECTOR: &'static str = "div";

/// The elements a chapter title is looked for in.
pub const TITLE_SELECTOR: &'static str = "h1, h2, h3, h4, title";

/// What the parsers read of one element of an HTML document.
#[derive(Debug, Clone)]
pub struct HtmlElement {
    /// The element's tag name.
    pub tag: String,
    /// Its text nodes, in document order.
    pub texts: Vec<String>,
    /// Its ancestors from the parent up: the tag name of each element node,
    /// `None` for the document node.
    pub ancestors: Vec<Option<String>>,
    /// The element itself, then its descendants in document order: the tag
    /// name of each element node, `None` for text and other nodes.
    pub descendants: Vec<Option<String>>,
}

pub struct HtmlElementView {
    pub tag: Seq<char>,
    pub texts: Seq<Seq<char>>,
    pub ancestors: Seq<Option<Seq<char>>>,
    pub descendants: Seq<Option<Seq<char>>>,
}

pub open spec fn opt_strings_view(v: Seq<Option<String>>) -> Seq<Option<Seq<char>>> {
    v.map_values(|o: Option<String>| opt_view(o))
}

impl View for HtmlElement {
    type V = HtmlElementView;

    open spec fn view(&self) -> HtmlElementView {
        HtmlElementView {
            tag: self.tag@,
            texts: strings_view(self.texts@),
            ancestors: opt_strings_view(self.ancestors@),
            descendants: opt_strings_view(self.descendants@),
        }
    }
}

pub open spec fn elements_view(v: Seq<HtmlElement>) -> Seq<HtmlElementView> {
    v.map_values(|e: HtmlElement| e@)
}

/// The elements of the HTML document `html` that the CSS selector
/// `selector` matches, in document order, as `scraper` finds them.
pub uninterp spec fn html_select_of(html: Seq<char>, selector: Seq<char>) -> Seq<HtmlElementView>;

/// Parses `html` with `scraper::Html::parse_document`, compiles `selector`
/// with `scraper::Selector::parse` (no element when it does not compile),
/// and converts each element `Html::select` yields. The parse and the
/// selection are named `html_select_of`.
#[verifier::external_body]
pub(crate) fn html_select(html: &str, selector: &str) -> (r: Vec<HtmlElement>)
    ensures
        elements_view(r@) == html_select_of(html@, selector@),
{
    let doc = scraper::Html::parse_document(html);
    let Ok(sel) = scraper::Selector::parse(selector) else { return Vec::new() };
    let name = |n| scraper::ElementRef::wrap(n).map(|x| x.value().name().to_string());
    doc.select(&sel).map(|e| HtmlElement {
        tag: e.value().name().to_string(),
        texts: e.text().map(|t| t.to_string()).collect(),
        ancestors: e.ancestors().map(name).collect(),
        descendants: e.descendants().map(name).collect(),
    }).collect()
}

// ───────────────────────── block extraction ─────────────────────────

pub open spec fn nav_tag() -> Seq<char> {
    seq!['n', 'a', 'v']
}

pub open spec fn header_tag() -> Seq<char> {
    seq!['h', 'e', 'a', 'd', 'e', 'r']
}

pub open spec fn footer_tag() -> Seq<char> {
    seq!['f', 'o', 'o', 't', 'e', 'r']
}

/// The tags whose content is page furniture: `nav`, `header`, `footer`.
pub open spec fn is_skipped_tag(name: Seq<char>) -> bool {
    name == nav_tag() || name == header_tag() || name == footer_tag()
}

/// An ancestor above the element's parent is a `nav`, `header` or `footer`.
pub open spec fn has_skipped_ancestor(e: HtmlElementView) -> bool {
    exists|j: int|
        1 <= j < e.ancestors.len() && (#[trigger] e.ancestors[j] matches Some(n) && is_skipped_tag(
            n,
        ))
}

/// A descendant of the element (itself not counted) has one of `tags`.
pub open spec fn has_descendant_in(e: HtmlElementView, tags: Seq<Seq<char>>) -> bool {
    exists|j: int|
        1 <= j < e.descendants.len() && (#[trigger] e.descendants[j] matches Some(n) && tags.contains(
            n,
        ))
}

pub open spec fn block_tags() -> Seq<Seq<char>> {
    seq![seq!['p'], seq!['l', 'i'], seq!['b', 'l', 'o', 'c', 'k', 'q', 'u', 'o', 't', 'e']]
}

pub open spec fn container_tags() -> Seq<Seq<char>> {
    block_tags() + seq![
        seq!['d', 'i', 'v'],
        seq!['s', 'e', 'c', 't', 'i', 'o', 'n'],
        seq!['a', 'r', 't', 'i', 'c', 'l', 'e'],
        seq!['u', 'l'],
        seq!['o', 'l'],
        seq!['t', 'a', 'b', 'l', 'e'],
    ]
}

pub open spec fn contents_word() -> Seq<char> {
    seq!['c', 'o', 'n', 't', 'e', 'n', 't', 's']
}

/// The element's text nodes joined by spaces, whitespace collapsed.
pub open spec fn element_text(e: HtmlElementView) -> Seq<char> {
    normalize(join(e.texts, " "@))
}

/// A table-of-contents entry: a chapter heading, or the word `contents`.
pub open spec fn navigation_entry(text: Seq<char>, o: ParseOptions) -> bool {
    let t = normalize(text);
    chapter_heading(t, o) || eq_ignore_ascii_case(t, contents_word())
}

/// The paragraph a `p`, `blockquote` or `li` element gives: none inside page
/// furniture, none for a list item or quote that holds other blocks, none
/// for text that is not substantive or is a navigation entry.
pub open spec fn primary_text(e: HtmlElementView, o: ParseOptions) -> Option<Seq<char>> {
    if has_skipped_ancestor(e) {
        None
    } else if (e.tag == seq!['l', 'i'] || e.tag == block_tags()[2]) && has_descendant_in(
        e,
        block_tags(),
    ) {
        None
    } else {
        let t = element_text(e);
        if !substantive(t, o) || navigation_entry(t, o) {
            None
        } else {
            Some(t)
        }
    }
}

/// The paragraph a `div` gives: only a leaf `div` outside page furniture
/// with substantive text of at least four words.
pub open spec fn div_text(e: HtmlElementView, o: ParseOptions) -> Option<Seq<char>> {
    if has_skipped_ancestor(e) || has_descendant_in(e, container_tags()) {
        None
    } else {
        let t = element_text(e);
        if !substantive(t, o) || word_count(t) < 4 {
            None
        } else {
            Some(t)
        }
    }
}

/// The texts the elements give, in order, under `primary_text` or `div_text`.
pub open spec fn collect_texts(els: Seq<HtmlElementView>, o: ParseOptions, divs: bool) -> Seq<
    Seq<char>,
>
    decreases els.len(),
{
    if els.len() == 0 {
        Seq::empty()
    } else {
        let prev = collect_texts(els.drop_last(), o, divs);
        let t = if divs {
            div_text(els.last(), o)
        } else {
            primary_text(els.last(), o)
        };
        match t {
            Some(x) => prev.push(x),
            None => prev,
        }
    }
}

/// Four or more blocks, each a navigation entry or a short non-sentence.
pub open spec fn navigation_page(texts: Seq<Seq<char>>, o: ParseOptions) -> bool {
    &&& texts.len() >= 4
    &&& forall|i: int|
        0 <= i < texts.len() ==> (navigation_entry(#[trigger] texts[i], o) || (word_count(texts[i])
            <= 12 && !sentence_like(texts[i])))
}

/// The texts an HTML page offers: its primary blocks, else its leaf `div`s.
pub open spec fn page_texts(html: Seq<char>, o: ParseOptions) -> Seq<Seq<char>> {
    let p = collect_texts(html_select_of(html, PRIMARY_BLOCK_SELECTOR@), o, false);
    if p.len() == 0 {
        collect_texts(html_select_of(html, DIV_SELECTOR@), o, true)
    } else {
        p
    }
}

/// The paragraph texts of an HTML page: the texts it offers, or nothing
/// when they look like navigation.
pub open spec fn text_blocks(html: Seq<char>, o: ParseOptions) -> Seq<Seq<char>> {
    let t = page_texts(html, o);
    if navigation_page(t, o) {
        Seq::empty()
    } else {
        t
    }
}

fn tag_is(name: &String, tag: &[char]) -> (r: bool)
    ensures
        r == (name@ == tag@),
{
    let v = chars_of(name.as_str());
    chars_equal(v.as_slice(), tag)
}

fn is_skipped_tag_exec(name: &String) -> (r: bool)
    ensures
        r == is_skipped_tag(name@),
{
    let nav = vec!['n', 'a', 'v'];
    let header = vec!['h', 'e', 'a', 'd', 'e', 'r'];
    let footer = vec!['f', 'o', 'o', 't', 'e', 'r'];
    assert(nav@ == nav_tag());
    assert(header@ == header_tag());
    assert(footer@ == footer_tag());
    tag_is(name, nav.as_slice()) || tag_is(name, header.as_slice()) || tag_is(
        name,
        footer.as_slice(),
    )
}

fn has_skipped_ancestor_exec(e: &HtmlElement) -> (r: bool)
    ensures
        r == has_skipped_ancestor(e@),
{
    let mut j: usize = 1;
    while j < e.ancestors.len()
        invariant
            1 <= j,
            forall|k: int|
                1 <= k < j && k < e@.ancestors.len() ==> !(#[trigger] e@.ancestors[k] matches Some(n)
                    && is_skipped_tag(n)),
        decreases e.ancestors.len() - j,
    {
        assert(e@.ancestors[j as int] == opt_view(e.ancestors@[j as int]));
        match &e.ancestors[j] {
            Some(n) => {
                if is_skipped_tag_exec(n) {
                    return true;
                }
            },
            None => {},
        }
        j = j + 1;
    }
    false
}

fn in_tags(name: &String, tags: &Vec<Vec<char>>) -> (r: bool)
    ensures
        r == crate::search::char_vecs_view(tags@).contains(name@),
{
    let ghost tv = crate::search::char_vecs_view(tags@);
    let mut i: usize = 0;
    while i < tags.len()
        invariant
            i <= tags.len(),
            tv == crate::search::char_vecs_view(tags@),
            forall|k: int| 0 <= k < i ==> tv[k] != name@,
        decreases tags.len() - i,
    {
        if tag_is(name, tags[i].as_slice()) {
            assert(tv[i as int] == name@);
            return true;
        }
        i = i + 1;
    }
    false
}

fn has_descendant_in_exec(e: &HtmlElement, tags: &Vec<Vec<char>>) -> (r: bool)
    ensures
        r == has_descendant_in(e@, crate::search::char_vecs_view(tags@)),
{
    let mut j: usize = 1;
    while j < e.descendants.len()
        invariant
            1 <= j,
            forall|k: int|
                1 <= k < j && k < e@.descendants.len() ==> !(#[trigger] e@.descendants[k] matches Some(
                    n,
                ) && crate::search::char_vecs_view(tags@).contains(n)),
        decreases e.descendants.len() - j,
    {
        assert(e@.descendants[j as int] == opt_view(e.descendants@[j as int]));
        match &e.descendants[j] {
            Some(n) => {
                if in_tags(n, tags) {
                    return true;
                }
            },
            None => {},
        }
        j = j + 1;
    }
    false
}

fn block_tag_list() -> (r: Vec<Vec<char>>)
    ensures
        crate::search::char_vecs_view(r@) == block_tags(),
{
    let r = vec![vec!['p'], vec!['l', 'i'], vec!['b', 'l', 'o', 'c', 'k', 'q', 'u', 'o', 't', 'e']];
    assert(r@[0]@ =~= block_tags()[0]);
    assert(r@[1]@ =~= block_tags()[1]);
    assert(r@[2]@ =~= block_tags()[2]);
    assert(crate::search::char_vecs_view(r@) =~= block_tags());
    r
}

fn container_tag_list() -> (r: Vec<Vec<char>>)
    ensures
        crate::search::char_vecs_view(r@) == container_tags(),
{
    let r = vec![
        vec!['p'],
        vec!['l', 'i'],
        vec!['b', 'l', 'o', 'c', 'k', 'q', 'u', 'o', 't', 'e'],
        vec!['d', 'i', 'v'],
        vec!['s', 'e', 'c', 't', 'i', 'o', 'n'],
        vec!['a', 'r', 't', 'i', 'c', 'l', 'e'],
        vec!['u', 'l'],
        vec!['o', 'l'],
        vec!['t', 'a', 'b', 'l', 'e'],
    ];
    assert(r@[0]@ =~= container_tags()[0]);
    assert(r@[1]@ =~= container_tags()[1]);
    assert(r@[2]@ =~= container_tags()[2]);
    assert(r@[3]@ =~= container_tags()[3]);
    assert(r@[4]@ =~= container_tags()[4]);
    assert(r@[5]@ =~= container_tags()[5]);
    assert(r@[6]@ =~= container_tags()[6]);
    assert(r@[7]@ =~= container_tags()[7]);
    assert(r@[8]@ =~= container_tags()[8]);
    assert(crate::search::char_vecs_view(r@) =~= container_tags());
    r
}

fn element_text_exec(e: &HtmlElement) -> (r: Vec<char>)
    ensures
        r@ == element_text(e@),
{
    let joined = join_strings(&e.texts, " ");
    let v = chars_of(joined.as_str());
    normalize_chars(v.as_slice())
}

fn navigation_entry_chars(text: &[char], options: &ParseOptions) -> (r: bool)
    ensures
        r == navigation_entry(text@, *options),
{
    let t = normalize_chars(text);
    let contents = vec!['c', 'o', 'n', 't', 'e', 'n', 't', 's'];
    assert(contents@ == contents_word());
    chapter_heading_chars(t.as_slice(), options) || eq_ignore_ascii_case_chars(
        t.as_slice(),
        contents.as_slice(),
    )
}

fn primary_text_exec(e: &HtmlElement, options: &ParseOptions) -> (r: Option<Vec<char>>)
    ensures
        match primary_text(e@, *options) {
            Some(t) => r matches Some(v) && v@ == t,
            None => r is None,
        },
{
    if has_skipped_ancestor_exec(e) {
        return None;
    }
    let li = vec!['l', 'i'];
    let bq = vec!['b', 'l', 'o', 'c', 'k', 'q', 'u', 'o', 't', 'e'];
    assert(li@ == seq!['l', 'i']);
    assert(bq@ == block_tags()[2]);
    let tags = block_tag_list();
    if (tag_is(&e.tag, li.as_slice()) || tag_is(&e.tag, bq.as_slice())) && has_descendant_in_exec(
        e,
        &tags,
    ) {
        return None;
    }
    let t = element_text_exec(e);
    if !is_substantive_chars(t.as_slice(), options) || navigation_entry_chars(
        t.as_slice(),
        options,
    ) {
        None
    } else {
        Some(t)
    }
}

fn div_text_exec(e: &HtmlElement, options: &ParseOptions) -> (r: Option<Vec<char>>)
    ensures
        match div_text(e@, *options) {
            Some(t) => r matches Some(v) && v@ == t,
            None => r is None,
        },
{
    let tags = container_tag_list();
    if has_skipped_ancestor_exec(e) || has_descendant_in_exec(e, &tags) {
        return None;
    }
    let t = element_text_exec(e);
    if !is_substantive_chars(t.as_slice(), options) || word_count_chars(t.as_slice()) < 4 {
        None
    } else {
        Some(t)
    }
}

fn collect_texts_exec(els: &Vec<HtmlElement>, options: &ParseOptions, divs: bool) -> (r: Vec<
    String,
>)
    ensures
        strings_view(r@) == collect_texts(elements_view(els@), *options, divs),
{
    let ghost ev = elements_view(els@);
    let mut r: Vec<String> = Vec::new();
    let mut i: usize = 0;
    assert(strings_view(r@) =~= Seq::<Seq<char>>::empty());
    while i < els.len()
        invariant
            i <= els.len(),
            ev == elements_view(els@),
            strings_view(r@) == collect_texts(ev.take(i as int), *options, divs),
        decreases els.len() - i,
    {
        assert(ev.take(i + 1).drop_last() =~= ev.take(i as int));
        assert(ev.take(i + 1).last() == els@[i as int]@);
        let t = if divs {
            div_text_exec(&els[i], options)
        } else {
            primary_text_exec(&els[i], options)
        };
        match t {
            Some(v) => {
                let ghost before = strings_view(r@);
                r.push(string_from_chars(v.as_slice()));
                assert(strings_view(r@) =~= before.push(v@));
            },
            None => {},
        }
        i = i + 1;
    }
    assert(ev.take(els.len() as int) =~= ev);
    r
}

/// The paragraph texts the `p`, `blockquote` and `li` elements of a page give.
pub fn primary_block_texts(elements: &Vec<HtmlElement>, options: &ParseOptions) -> (r: Vec<String>)
    ensures
        strings_view(r@) == collect_texts(elements_view(elements@), *options, false),
{
    collect_texts_exec(elements, options, false)
}

/// The paragraph texts the `div` elements of a page give.
pub fn div_fallback_texts(elements: &Vec<HtmlElement>, options: &ParseOptions) -> (r: Vec<String>)
    ensures
        strings_view(r@) == collect_texts(elements_view(elements@), *options, true),
{
    collect_texts_exec(elements, options, true)
}

/// Whether the blocks of a page look like a table of contents.
pub fn looks_like_navigation_page(texts: &Vec<String>, options: &ParseOptions) -> (r: bool)
    ensures
        r == navigation_page(strings_view(texts@), *options),
{
    let ghost tv = strings_view(texts@);
    if texts.len() < 4 {
        return false;
    }
    let mut i: usize = 0;
    while i < texts.len()
        invariant
            i <= texts.len(),
            tv == strings_view(texts@),
            forall|k: int|
                0 <= k < i ==> (navigation_entry(#[trigger] tv[k], *options) || (word_count(tv[k])
                    <= 12 && !sentence_like(tv[k]))),
        decreases texts.len() - i,
    {
        let v = chars_of(texts[i].as_str());
        assert(v@ == tv[i as int]);
        if !(navigation_entry_chars(v.as_slice(), options) || (word_count_chars(v.as_slice()) <= 12
            && !sentence_like_chars(v.as_slice()))) {
            return false;
        }
        i = i + 1;
    }
    true
}

/// Whether `text` is a table-of-contents entry.
pub fn looks_like_navigation_entry(text: &str, options: &ParseOptions) -> (r: bool)
    ensures
        r == navigation_entry(text@, *options),
{
    let v = chars_of(text);
    navigation_entry_chars(v.as_slice(), options)
}

/// The paragraph texts of an HTML page.
pub fn extract_text_blocks(html: &str, options: &ParseOptions) -> (r: Vec<String>)
    ensures
        strings_view(r@) == text_blocks(html@, *options),
{
    let primary = html_select(html, PRIMARY_BLOCK_SELECTOR);
    let mut texts = primary_block_texts(&primary, options);
    if texts.len() == 0 {
        let divs = html_select(html, DIV_SELECTOR);
        texts = div_fallback_texts(&divs, options);
    }
    if looks_like_navigation_page(&texts, options) {
        let r: Vec<String> = Vec::new();
        assert(strings_view(r@) =~= Seq::<Seq<char>>::empty());
        return r;
    }
    texts
}

// ───────────────────────── chapter titles ─────────────────────────

/// The first heading or title element with text other than `contents`.
pub open spec fn first_heading_text(els: Seq<HtmlElementView>) -> Option<Seq<char>>
    decreases els.len(),
{
    if els.len() == 0 {
        None
    } else {
        let t = element_text(els[0]);
        if t.len() > 0 && !eq_ignore_ascii_case(t, contents_word()) {
            Some(t)
        } else {
            first_heading_text(els.drop_first())
        }
    }
}

/// The title of an HTML page: its first `h1`–`h4` or `title` with text.
pub open spec fn chapter_title(html: Seq<char>) -> Option<Seq<char>> {
    first_heading_text(html_select_of(html, TITLE_SELECTOR@))
}

/// The title the heading elements of a page give.
pub fn chapter_title_from_elements(elements: &Vec<HtmlElement>) -> (r: Option<String>)
    ensures
        opt_view(r) == first_heading_text(elements_view(elements@)),
{
    let ghost ev = elements_view(elements@);
    let contents = vec!['c', 'o', 'n', 't', 'e', 'n', 't', 's'];
    assert(contents@ == contents_word());
    let mut i: usize = 0;
    assert(ev.skip(0) =~= ev);
    while i < elements.len()
        invariant
            i <= elements.len(),
            ev == elements_view(elements@),
            contents@ == contents_word(),
            first_heading_text(ev) == first_heading_text(ev.skip(i as int)),
        decreases elements.len() - i,
    {
        assert(ev.skip(i as int)[0] == elements@[i as int]@);
        assert(ev.skip(i as int).drop_first() =~= ev.skip(i + 1));
        let t = element_text_exec(&elements[i]);
        if t.len() > 0 && !eq_ignore_ascii_case_chars(t.as_slice(), contents.as_slice()) {
            return Some(string_from_chars(t.as_slice()));
        }
        i = i + 1;
    }
    assert(ev.skip(i as int).len() == 0);
    None
}

/// The title of an HTML page.
pub fn extract_chapter_title(html: &str) -> (r: Option<String>)
    ensures
        opt_view(r) == chapter_title(html@),
{
    let elements = html_select(html, TITLE_SELECTOR);
    chapter_title_from_elements(&elements)
}

// ───────────────────────── whole books ─────────────────────────

/// The paragraphs of chapter `index` made from the given texts.
pub open spec fn texts_to_paragraphs(texts: Seq<Seq<char>>, slug: Seq<char>, index: nat) -> Seq<
    ParagraphView,
> {
    Seq::new(
        texts.len(),
        |j: int|
            ParagraphView { id: para_id(slug, index, j as nat), text: texts[j], kind: KindView::Text },
    )
}

/// The paragraphs of an HTML page that becomes chapter `chapter_idx`.
pub fn extract_paragraphs(html: &str, book_slug: &str, chapter_idx: usize, options: &ParseOptions) -> (r:
    Vec<Paragraph>)
    ensures
        paragraphs_view(r@) == texts_to_paragraphs(
            text_blocks(html@, *options),
            book_slug@,
            chapter_idx as nat,
        ),
{
    let texts = extract_text_blocks(html, options);
    let ghost expected = texts_to_paragraphs(strings_view(texts@), book_slug@, chapter_idx as nat);
    let mut r: Vec<Paragraph> = Vec::new();
    let mut j: usize = 0;
    while j < texts.len()
        invariant
            j <= texts.len(),
            expected == texts_to_paragraphs(strings_view(texts@), book_slug@, chapter_idx as nat),
            paragraphs_view(r@) == expected.take(j as int),
        decreases texts.len() - j,
    {
        let p = Paragraph {
            id: paragraph_id(book_slug, chapter_idx, j),
            text: texts[j].clone(),
            kind: ParagraphKind::Text,
        };
        assert(p@ == expected[j as int]);
        let ghost before = r@;
        r.push(p);
        assert(paragraphs_view(r@) =~= paragraphs_view(before).push(expected[j as int]));
        assert(expected.take(j + 1) =~= expected.take(j as int).push(expected[j as int]));
        j = j + 1;
    }
    assert(expected.take(texts.len() as int) =~= expected);
    r
}

/// What an EPUB archive holds for the book: its `title` metadata and the
/// text of each spine page (`None` for a page that could not be read).
#[derive(Debug, Clone)]
pub struct EpubContents {
    pub title: Option<String>,
    pub pages: Vec<Option<String>>,
}

pub struct EpubView {
    pub title: Option<Seq<char>>,
    pub pages: Seq<Option<Seq<char>>>,
}

impl View for EpubContents {
    type V = EpubView;

    open spec fn view(&self) -> EpubView {
        EpubView { title: opt_view(self.title), pages: opt_strings_view(self.pages@) }
    }
}

/// What the `epub` crate reads from the archive `bytes`, or `None` when it
/// cannot open them.
pub uninterp spec fn epub_contents_of(bytes: Seq<u8>) -> Option<EpubView>;

// ───────────────────────── screening an archive ─────────────────────────

/// Whether the `epub` crate's `EpubDoc::from_reader` returns on `bytes`
/// without reaching either of its panics: the `expect` on the package path's
/// parent (doc.rs, for an empty or root package path) and the slice of the
/// first three bytes in its XML reader (for a container, package or table
/// of contents file shorter than three bytes).
pub uninterp spec fn epub_opens_cleanly(bytes: Seq<u8>) -> bool;

/// The files of the archive `bytes` as the `epub` crate's `EpubArchive`
/// lists them, each with its content (`None` where it cannot be read), or
/// `None` when the archive cannot be opened.
pub uninterp spec fn epub_files_of(bytes: Seq<u8>) -> Option<Seq<(Seq<char>, Option<Seq<u8>>)>>;

pub open spec fn files_view(v: Seq<(String, Option<Vec<u8>>)>) -> Seq<(Seq<char>, Option<Seq<u8>>)> {
    v.map_values(
        |f: (String, Option<Vec<u8>>)|
            (
                f.0@,
                match f.1 {
                    Some(b) => Some(b@),
                    None => None,
                },
            ),
    )
}

/// The bytes `pat` stand in `c` from index `i`.
pub open spec fn bytes_at(c: Seq<u8>, pat: Seq<u8>, i: int) -> bool {
    0 <= i && i + pat.len() <= c.len() && c.subrange(i, i + pat.len()) == pat
}

pub open spec fn is_xml_space(b: u8) -> bool {
    b == 32u8 || b == 9u8 || b == 10u8 || b == 13u8
}

/// The first index from `j` on that holds no XML whitespace.
pub open spec fn skip_spaces(c: Seq<u8>, j: int) -> int
    decreases c.len() - j,
{
    if 0 <= j < c.len() && is_xml_space(c[j]) {
        skip_spaces(c, j + 1)
    } else {
        j
    }
}

/// The first index from `j` on that holds the byte `q`, or the length.
pub open spec fn quote_end(c: Seq<u8>, j: int, q: u8) -> int
    decreases c.len() - j,
{
    if 0 <= j < c.len() && c[j] != q {
        quote_end(c, j + 1, q)
    } else {
        j
    }
}

/// After an attribute name ending just before `j` come `=` and a quoted
/// value that is not empty, does not start with `/`, and holds no `&`, `:`
/// or `\`: a package path with a parent, whatever entities or platform.
pub open spec fn package_path_ok(c: Seq<u8>, j: int) -> bool {
    let k = skip_spaces(c, j);
    let v = skip_spaces(c, k + 1);
    let e = quote_end(c, v + 1, c[v]);
    &&& 0 <= k < c.len()
    &&& c[k] == 61u8
    &&& 0 <= v < c.len()
    &&& (c[v] == 34u8 || c[v] == 39u8)
    &&& e < c.len()
    &&& e > v + 1
    &&& c[v + 1] != 47u8
    &&& forall|i: int| v + 1 <= i < e ==> c[i] != 38u8 && c[i] != 58u8 && c[i] != 92u8
}

/// `full-path`
pub open spec fn full_path_attr() -> Seq<u8> {
    seq![102u8, 117u8, 108u8, 108u8, 45u8, 112u8, 97u8, 116u8, 104u8]
}

/// A container file read as one-byte text (no zero byte, no UTF-16 byte
/// order mark) in which every `full-path` is followed by a package path
/// that has a parent.
pub open spec fn container_ok(c: Seq<u8>) -> bool {
    &&& forall|i: int| 0 <= i < c.len() ==> c[i] != 0u8
    &&& !(c.len() >= 2 && ((c[0] == 0xfeu8 && c[1] == 0xffu8) || (c[0] == 0xffu8 && c[1] == 0xfeu8)))
    &&& forall|i: int| #[trigger] bytes_at(c, full_path_attr(), i) ==> package_path_ok(c, i + 9)
}

/// `META-INF/container.xml`
pub open spec fn container_name() -> Seq<char> {
    "META-INF/container.xml"@
}

/// Every readable file holds at least three bytes, and every readable
/// container file names package paths that have a parent.
pub open spec fn files_screened(fs: Seq<(Seq<char>, Option<Seq<u8>>)>) -> bool {
    forall|k: int|
        0 <= k < fs.len() ==> match (#[trigger] fs[k]).1 {
            Some(c) => c.len() >= 3 && (fs[k].0 == container_name() ==> container_ok(c)),
            None => true,
        }
}

/// The archive opens and passes the screening.
pub open spec fn epub_screened(bytes: Seq<u8>) -> bool {
    epub_files_of(bytes) matches Some(fs) && files_screened(fs)
}

/// Opens the archive with `epub::archive::EpubArchive::from_reader` and reads
/// each file it lists with `EpubArchive::get_entry`; the result is named
/// `epub_files_of`. `EpubDoc::from_reader` opens the archive the same way and
/// reads the container, package and table of contents files with
/// `get_entry`, so when every readable file holds three bytes or more, its
/// XML reader never slices a shorter one; and its package path is the
/// `full-path` attribute of the container, which, in a container written in
/// one-byte text, stands in the bytes as written unless entities make it,
/// so a screened container gives a path with a parent. Hence a screened
/// archive reaches neither panic.
#[verifier::external_body]
fn epub_files(bytes: &Vec<u8>) -> (r: Option<Vec<(String, Option<Vec<u8>>)>>)
    ensures
        match r {
            Some(fs) => epub_files_of(bytes@) == Some(files_view(fs@)),
            None => epub_files_of(bytes@) is None,
        },
        r matches Some(fs) ==> (files_screened(files_view(fs@)) ==> epub_opens_cleanly(bytes@)),
{
    let mut archive = epub::archive::EpubArchive::from_reader(std::io::Cursor::new(bytes.clone())).ok()?;
    let mut files = Vec::new();
    for name in archive.files.clone() {
        let content = archive.get_entry(&name).ok();
        files.push((name, content));
    }
    Some(files)
}

fn skip_spaces_exec(c: &Vec<u8>, j: usize) -> (r: usize)
    requires
        j <= c.len(),
    ensures
        r == skip_spaces(c@, j as int),
        j <= r <= c.len(),
{
    let mut k = j;
    while k < c.len() && (c[k] == 32u8 || c[k] == 9u8 || c[k] == 10u8 || c[k] == 13u8)
        invariant
            j <= k <= c.len(),
            skip_spaces(c@, j as int) == skip_spaces(c@, k as int),
        decreases c.len() - k,
    {
        k = k + 1;
    }
    k
}

fn quote_end_exec(c: &Vec<u8>, j: usize, q: u8) -> (r: usize)
    requires
        j <= c.len(),
    ensures
        r == quote_end(c@, j as int, q),
        j <= r <= c.len(),
{
    let mut k = j;
    while k < c.len() && c[k] != q
        invariant
            j <= k <= c.len(),
            quote_end(c@, j as int, q) == quote_end(c@, k as int, q),
        decreases c.len() - k,
    {
        k = k + 1;
    }
    k
}

fn package_path_ok_exec(c: &Vec<u8>, j: usize) -> (r: bool)
    requires
        j <= c.len(),
    ensures
        r == package_path_ok(c@, j as int),
{
    let k = skip_spaces_exec(c, j);
    if k >= c.len() || c[k] != 61u8 {
        return false;
    }
    let v = skip_spaces_exec(c, k + 1);
    if v >= c.len() || !(c[v] == 34u8 || c[v] == 39u8) {
        return false;
    }
    let e = quote_end_exec(c, v + 1, c[v]);
    if e >= c.len() || e <= v + 1 || c[v + 1] == 47u8 {
        return false;
    }
    let mut i = v + 1;
    while i < e
        invariant
            v + 1 <= i <= e,
            e < c.len(),
            k < c.len(),
            c@[k as int] == 61u8,
            v < c.len(),
            c@[v as int] == 34u8 || c@[v as int] == 39u8,
            e > v + 1,
            c@[v + 1] != 47u8,
            k == skip_spaces(c@, j as int),
            v == skip_spaces(c@, k + 1),
            e == quote_end(c@, v + 1, c@[v as int]),
            forall|m: int| v + 1 <= m < i ==> c@[m] != 38u8 && c@[m] != 58u8 && c@[m] != 92u8,
        decreases e - i,
    {
        if c[i] == 38u8 || c[i] == 58u8 || c[i] == 92u8 {
            assert(!(c@[i as int] != 38u8 && c@[i as int] != 58u8 && c@[i as int] != 92u8));
            assert(!package_path_ok(c@, j as int));
            return false;
        }
        i = i + 1;
    }
    true
}

fn bytes_at_exec(c: &Vec<u8>, pat: &Vec<u8>, i: usize) -> (r: bool)
    ensures
        r == bytes_at(c@, pat@, i as int),
{
    if i > c.len() || pat.len() > c.len() - i {
        return false;
    }
    let mut k: usize = 0;
    while k < pat.len()
        invariant
            i + pat.len() <= c.len(),
            k <= pat.len(),
            forall|m: int| 0 <= m < k ==> #[trigger] c@[i + m] == pat@[m],
        decreases pat.len() - k,
    {
        if c[i + k] != pat[k] {
            assert(c@.subrange(i as int, i + pat.len())[k as int] != pat@[k as int]);
            return false;
        }
        k = k + 1;
    }
    assert forall|m: int| 0 <= m < pat.len() implies c@.subrange(i as int, i + pat.len())[m] == pat@[m] by {
        assert(c@[i + m] == pat@[m]);
    }
    assert(c@.subrange(i as int, i + pat.len()) =~= pat@);
    true
}

fn container_ok_exec(c: &Vec<u8>) -> (r: bool)
    ensures
        r == container_ok(c@),
{
    let mut i: usize = 0;
    while i < c.len()
        invariant
            i <= c.len(),
            forall|m: int| 0 <= m < i ==> c@[m] != 0u8,
        decreases c.len() - i,
    {
        if c[i] == 0u8 {
            return false;
        }
        i = i + 1;
    }
    if c.len() >= 2 && ((c[0] == 0xfeu8 && c[1] == 0xffu8) || (c[0] == 0xffu8 && c[1] == 0xfeu8)) {
        return false;
    }
    let pat: Vec<u8> = vec![102u8, 117u8, 108u8, 108u8, 45u8, 112u8, 97u8, 116u8, 104u8];
    assert(pat@ =~= full_path_attr());
    let mut i: usize = 0;
    while i < c.len()
        invariant
            i <= c.len(),
            pat@ == full_path_attr(),
            forall|m: int| 0 <= m < i && #[trigger] bytes_at(c@, full_path_attr(), m) ==> package_path_ok(c@, m + 9),
        decreases c.len() - i,
    {
        if bytes_at_exec(c, &pat, i) {
            if !package_path_ok_exec(c, i + 9) {
                return false;
            }
        }
        i = i + 1;
    }
    assert forall|m: int| #[trigger] bytes_at(c@, full_path_attr(), m) implies package_path_ok(c@, m + 9) by {
        assert(0 <= m < c.len());
    }
    true
}

fn files_screened_exec(fs: &Vec<(String, Option<Vec<u8>>)>) -> (r: bool)
    ensures
        r == files_screened(files_view(fs@)),
{
    let ghost fv = files_view(fs@);
    let name_v = chars_of("META-INF/container.xml");
    let mut k: usize = 0;
    while k < fs.len()
        invariant
            k <= fs.len(),
            fv == files_view(fs@),
            name_v@ == container_name(),
            forall|m: int| 0 <= m < k ==> match (#[trigger] fv[m]).1 {
                Some(c) => c.len() >= 3 && (fv[m].0 == container_name() ==> container_ok(c)),
                None => true,
            },
        decreases fs.len() - k,
    {
        match &fs[k].1 {
            Some(c) => {
                if c.len() < 3 {
                    assert(fv[k as int].1 == Some(c@));
                    return false;
                }
                let n = chars_of(fs[k].0.as_str());
                if chars_equal(n.as_slice(), name_v.as_slice()) {
                    if !container_ok_exec(c) {
                        assert(fv[k as int].0 == container_name());
                        return false;
                    }
                }
            },
            None => {},
        }
        assert(fv[k as int] == (fs@[k as int].0@, match fs@[k as int].1 {
            Some(b) => Some(b@),
            None => None,
        }));
        k = k + 1;
    }
    true
}

/// Opens the archive with `epub::doc::EpubDoc::from_reader`, reads
/// `EpubDoc::mdata("title")`, and for each spine page (`get_num_pages`,
/// `set_current_page`) the text `get_current_str` gives. The result is named
/// `epub_contents_of`. Only archives on which `from_reader` returns are
/// handed to it.
#[verifier::external_body]
pub(crate) fn read_epub(bytes: Vec<u8>) -> (r: Option<EpubContents>)
    requires
        epub_opens_cleanly(bytes@),
    ensures
        match r {
            Some(c) => epub_contents_of(bytes@) == Some(c@),
            None => epub_contents_of(bytes@) is None,
        },
{
    let mut doc = epub::doc::EpubDoc::from_reader(std::io::Cursor::new(bytes)).ok()?;
    let title = doc.mdata("title");
    let mut pages = Vec::new();
    for i in 0..doc.get_num_pages() {
        let _ = doc.set_current_page(i);
        pages.push(doc.get_current_str().ok());
    }
    Some(EpubContents { title, pages })
}

/// The chapters the pages make: each readable page with paragraphs becomes
/// the next chapter, titled by its first heading.
pub open spec fn epub_chapters(pages: Seq<Option<Seq<char>>>, slug: Seq<char>, o: ParseOptions) -> Seq<
    ChapterView,
>
    decreases pages.len(),
{
    if pages.len() == 0 {
        Seq::empty()
    } else {
        let prev = epub_chapters(pages.drop_last(), slug, o);
        match pages.last() {
            None => prev,
            Some(html) => {
                let texts = text_blocks(html, o);
                if texts.len() == 0 {
                    prev
                } else {
                    prev.push(
                        ChapterView {
                            index: prev.len(),
                            title: chapter_title(html),
                            paragraphs: texts_to_paragraphs(texts, slug, prev.len()),
                        },
                    )
                }
            },
        }
    }
}

/// The book an EPUB makes: the metadata title unless blank, else the
/// fallback title; its slug; the chapters of its pages.
pub open spec fn epub_book(c: EpubView, default_title: Seq<char>, o: ParseOptions) -> BookView {
    let title = match c.title {
        Some(t) => if trim(t).len() > 0 {
            t
        } else {
            default_title
        },
        None => default_title,
    };
    let slug = slug_of(title, default_title);
    BookView { slug, title, chapters: epub_chapters(c.pages, slug, o) }
}

/// Builds the book the contents of an EPUB describe.
pub fn book_from_epub_contents(
    contents: &EpubContents,
    default_title: &str,
    options: &ParseOptions,
) -> (r: Book)
    ensures
        r@ == epub_book(contents@, default_title@, *options),
{
    let title = match &contents.title {
        Some(t) => {
            let v = chars_of(t.as_str());
            if trim_chars(v.as_slice()).len() > 0 {
                t.clone()
            } else {
                String::from_str(default_title)
            }
        },
        None => String::from_str(default_title),
    };
    let s1 = slugify(title.as_str());
    let slug = if s1.as_str().unicode_len() > 0 {
        s1
    } else {
        let s2 = slugify(default_title);
        if s2.as_str().unicode_len() > 0 {
            s2
        } else {
            let mut s = String::new();
            push_char(&mut s, 'b');
            push_char(&mut s, 'o');
            push_char(&mut s, 'o');
            push_char(&mut s, 'k');
            s
        }
    };
    assert(slug@ == slug_of(title@, default_title@));
    let ghost pv = contents@.pages;
    let mut chapters: Vec<Chapter> = Vec::new();
    let mut i: usize = 0;
    assert(chapters_view(chapters@) =~= Seq::<ChapterView>::empty());
    while i < contents.pages.len()
        invariant
            i <= contents.pages.len(),
            pv == contents@.pages,
            chapters_view(chapters@) == epub_chapters(pv.take(i as int), slug@, *options),
        decreases contents.pages.len() - i,
    {
        assert(pv.take(i + 1).drop_last() =~= pv.take(i as int));
        assert(pv.take(i + 1).last() == opt_view(contents.pages@[i as int]));
        match &contents.pages[i] {
            None => {},
            Some(html) => {
                let index = chapters.len();
                let paragraphs = extract_paragraphs(html.as_str(), slug.as_str(), index, options);
                assert(paragraphs_view(paragraphs@).len() == paragraphs.len());
                assert(chapters_view(chapters@).len() == chapters.len());
                if paragraphs.len() > 0 {
                    let title = extract_chapter_title(html.as_str());
                    let c = Chapter { index, title, paragraphs };
                    let ghost before = chapters_view(chapters@);
                    chapters.push(c);
                    assert(chapters_view(chapters@) =~= before.push(c@));
                }
            },
        }
        i = i + 1;
    }
    assert(pv.take(contents.pages.len() as int) =~= pv);
    Book { slug, title, chapters }
}

/// What reading the EPUB archive `bytes` gives: the book its pages make
/// when the archive passes the screening and opens, else the error that it
/// cannot be read.
pub open spec fn epub_parsed(r: Result<Book, BookError>, bytes: Seq<u8>, o: ParseOptions) -> bool {
    if !epub_screened(bytes) {
        r matches Err(e) && e is UnreadableEpub
    } else {
        match epub_contents_of(bytes) {
            None => r matches Err(e) && e is UnreadableEpub,
            Some(c) => r matches Ok(b) && exists|stem: Option<Seq<char>>|
                b@ == #[trigger] epub_book(c, title_from_stem(stem), o),
        }
    }
}

/// Parses an EPUB read from `path`; the fallback title is the file's stem.
/// An archive that fails the screening (a readable file shorter than three
/// bytes, or a container whose package path might have no parent) is
/// refused as unreadable.
pub fn parse_epub(path: &Path, bytes: Vec<u8>, options: &ParseOptions) -> (r: Result<Book, BookError>)
    ensures
        epub_parsed(r, bytes@, *options),
{
    let files = epub_files(&bytes);
    let ok = match &files {
        Some(fs) => files_screened_exec(fs),
        None => false,
    };
    if !ok {
        return Err(BookError::UnreadableEpub(display_path(path)));
    }
    match read_epub(bytes) {
        None => Err(BookError::UnreadableEpub(display_path(path))),
        Some(contents) => {
            let fallback = default_title_from_path(path);
            let b = book_from_epub_contents(&contents, fallback.as_str(), options);
            let ghost stem = choose|stem: Option<Seq<char>>| fallback@ == title_from_stem(stem);
            assert(b@ == epub_book(contents@, title_from_stem(stem), *options));
            Ok(b)
        },
    }
}

} // verus!
