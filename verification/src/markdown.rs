//! Markdown books: the YAML front matter may name the title; headings,
//! paragraphs and list items from the Markdown event stream feed the builder.
use vstd::prelude::*;
use std::path::Path;
use pulldown_cmark::{Event, Tag};
use crate::parse_utils::{
    book_result, chapter_heading, chapter_heading_chars, chapter_title_op, default_title_from_path,
    finished_book, new_builder, paragraph_op, pristine, set_title_op, title_from_stem,
    BookBuilder, BuilderView, ParseOptions,
};
use crate::search::{char_vecs_view, find, find_chars, index_of_from, lines, lines_chars, slice_chars};
use crate::text::{
    chars_of, eq_ignore_ascii_case, eq_ignore_ascii_case_chars, push_char, string_from_chars,
    trim, trim_chars,
};
use crate::types::{opt_view, Book, BookError, BookView};

verus! {

// ───────────────────────── front matter ─────────────────────────

/// `s` without the characters `c` at its start.
pub open spec fn trim_start_char(s: Seq<char>, c: char) -> Seq<char>
    decreases s.len(),
{
    if s.len() > 0 && s[0] == c {
        trim_start_char(s.drop_first(), c)
    } else {
        s
    }
}

/// `s` without the characters `c` at its end.
pub open spec fn trim_end_char(s: Seq<char>, c: char) -> Seq<char>
    decreases s.len(),
{
    if s.len() > 0 && s.last() == c {
        trim_end_char(s.drop_last(), c)
    } else {
        s
    }
}

/// `s` without the characters `c` at either end (`str::trim_matches(c)`).
pub open spec fn trim_matches(s: Seq<char>, c: char) -> Seq<char> {
    trim_end_char(trim_start_char(s, c), c)
}

pub fn trim_matches_chars(s: &[char], c: char) -> (r: Vec<char>)
    ensures
        r@ == trim_matches(s@, c),
{
    let mut a: usize = 0;
    assert(s@.skip(0) == s@);
    while a < s.len() && s[a] == c
        invariant
            a <= s.len(),
            trim_start_char(s@, c) == trim_start_char(s@.skip(a as int), c),
        decreases s.len() - a,
    {
        assert(s@.skip(a as int).drop_first() == s@.skip(a + 1));
        a = a + 1;
    }
    let ghost t = s@.skip(a as int);
    assert(trim_start_char(t, c) == t);
    let mut b: usize = s.len();
    assert(t.take(b - a) == t);
    while b > a && s[b - 1] == c
        invariant
            a <= b <= s.len(),
            t == s@.skip(a as int),
            trim_end_char(t, c) == trim_end_char(t.take(b - a), c),
        decreases b,
    {
        assert(t.take(b - a).drop_last() == t.take(b - 1 - a));
        b = b - 1;
    }
    let r = slice_chars(s, a, b);
    assert(r@ == t.take(b - a));
    r
}

pub open spec fn title_key() -> Seq<char> {
    seq!['t', 'i', 't', 'l', 'e']
}

/// The title a front-matter line gives: `title: Value`, the key compared
/// without ASCII case, the value trimmed and unquoted; none when empty.
pub open spec fn line_title(line: Seq<char>) -> Option<Seq<char>> {
    match index_of_from(line, ':', 0) {
        None => None,
        Some(k) => {
            let key = line.take(k);
            let value = line.skip(k + 1);
            if eq_ignore_ascii_case(trim(key), title_key()) {
                let v = trim_matches(trim_matches(trim(value), '"'), '\'');
                if v.len() > 0 {
                    Some(v)
                } else {
                    None
                }
            } else {
                None
            }
        },
    }
}

/// The title of the first line that gives one.
pub open spec fn first_title(ls: Seq<Seq<char>>) -> Option<Seq<char>>
    decreases ls.len(),
{
    if ls.len() == 0 {
        None
    } else {
        match line_title(ls[0]) {
            Some(t) => Some(t),
            None => first_title(ls.drop_first()),
        }
    }
}

pub open spec fn frontmatter_open() -> Seq<char> {
    seq!['-', '-', '-', '\n']
}

pub open spec fn frontmatter_close() -> Seq<char> {
    seq!['\n', '-', '-', '-', '\n']
}

/// `raw` without a leading byte-order mark.
pub open spec fn strip_bom(raw: Seq<char>) -> Seq<char> {
    if raw.len() > 0 && raw[0] == '\u{feff}' {
        raw.drop_first()
    } else {
        raw
    }
}

/// A document that opens with `---\n` and has a later `\n---\n` is split into
/// the title its front matter gives and the body after it; any other
/// document has no title and is its own body (a byte-order mark dropped).
pub open spec fn split_frontmatter_spec(raw: Seq<char>) -> (Option<Seq<char>>, Seq<char>) {
    let normalized = strip_bom(raw);
    if !(normalized.len() >= 4 && normalized.take(4) == frontmatter_open()) {
        (None, normalized)
    } else {
        let rest = normalized.skip(4);
        match find(rest, frontmatter_close()) {
            None => (None, normalized),
            Some(close) => (first_title(lines(rest.take(close))), rest.skip(close + 5)),
        }
    }
}

fn line_title_chars(line: &[char]) -> (r: Option<Vec<char>>)
    ensures
        match line_title(line@) {
            Some(t) => r matches Some(v) && v@ == t,
            None => r is None,
        },
{
    let mut k: usize = 0;
    while k < line.len() && line[k] != ':'
        invariant
            k <= line.len(),
            index_of_from(line@, ':', 0) == index_of_from(line@, ':', k as int),
        decreases line.len() - k,
    {
        k = k + 1;
    }
    if k == line.len() {
        return None;
    }
    let key = slice_chars(line, 0, k);
    let value = slice_chars(line, k + 1, line.len());
    assert(key@ == line@.take(k as int));
    assert(value@ == line@.skip(k + 1));
    let tkey = trim_chars(key.as_slice());
    let title = vec!['t', 'i', 't', 'l', 'e'];
    assert(title@ == title_key());
    if !eq_ignore_ascii_case_chars(tkey.as_slice(), title.as_slice()) {
        return None;
    }
    let v0 = trim_chars(value.as_slice());
    let v1 = trim_matches_chars(v0.as_slice(), '"');
    let v2 = trim_matches_chars(v1.as_slice(), '\'');
    if v2.len() > 0 {
        Some(v2)
    } else {
        None
    }
}

fn first_title_chars(ls: &Vec<Vec<char>>) -> (r: Option<String>)
    ensures
        opt_view(r) == first_title(char_vecs_view(ls@)),
{
    let ghost lv = char_vecs_view(ls@);
    let mut i: usize = 0;
    assert(lv.skip(0) == lv);
    while i < ls.len()
        invariant
            i <= ls.len(),
            lv == char_vecs_view(ls@),
            first_title(lv) == first_title(lv.skip(i as int)),
        decreases ls.len() - i,
    {
        assert(lv.skip(i as int)[0] == ls@[i as int]@);
        assert(lv.skip(i as int).drop_first() == lv.skip(i + 1));
        match line_title_chars(ls[i].as_slice()) {
            Some(t) => {
                return Some(string_from_chars(t.as_slice()));
            },
            None => {},
        }
        i = i + 1;
    }
    assert(lv.skip(i as int).len() == 0);
    None
}

/// Splits a Markdown document into its front-matter title and its body.
pub fn split_frontmatter(raw: &str) -> (r: (Option<String>, String))
    ensures
        opt_view(r.0) == split_frontmatter_spec(raw@).0,
        r.1@ == split_frontmatter_spec(raw@).1,
{
    let v = chars_of(raw);
    let normalized = if v.len() > 0 && v[0] == '\u{feff}' {
        slice_chars(v.as_slice(), 1, v.len())
    } else {
        slice_chars(v.as_slice(), 0, v.len())
    };
    assert(normalized@ == strip_bom(raw@));
    let open = vec!['-', '-', '-', '\n'];
    assert(open@ == frontmatter_open());
    let opens = normalized.len() >= 4 && normalized[0] == '-' && normalized[1] == '-'
        && normalized[2] == '-' && normalized[3] == '\n';
    if normalized.len() >= 4 {
        assert(opens == (normalized@.take(4) == frontmatter_open())) by {
            if normalized@.take(4) == frontmatter_open() {
                assert(normalized@.take(4)[1] == '-');
            }
            if opens {
                assert(normalized@.take(4) =~= frontmatter_open());
            }
        }
    }
    if !opens {
        return (None, string_from_chars(normalized.as_slice()));
    }
    let rest = slice_chars(normalized.as_slice(), 4, normalized.len());
    assert(rest@ == normalized@.skip(4));
    let close_pat = vec!['\n', '-', '-', '-', '\n'];
    assert(close_pat@ == frontmatter_close());
    match find_chars(rest.as_slice(), close_pat.as_slice()) {
        None => (None, string_from_chars(normalized.as_slice())),
        Some(close) => {
            proof {
                crate::search::lemma_find_from_bounds(rest@, close_pat@, 0);
            }
            let front = slice_chars(rest.as_slice(), 0, close);
            let body = slice_chars(rest.as_slice(), close + 5, rest.len());
            assert(front@ == rest@.take(close as int));
            assert(body@ == rest@.skip(close + 5));
            let ls = lines_chars(front.as_slice());
            let title = first_title_chars(&ls);
            (title, string_from_chars(body.as_slice()))
        },
    }
}

// ───────────────────────── the event stream ─────────────────────────

/// The start tags the book reads.
#[derive(Debug, Clone, Copy, PartialEq, Eq)]
pub enum MdTag {
    /// A heading of level 1 to 6.
    Heading(u8),
    Paragraph,
    Item,
    Other,
}

/// A Markdown event as the book reads it.
#[derive(Debug, Clone, PartialEq, Eq)]
pub enum MdEvent {
    Start(MdTag),
    End,
    /// Text or inline code.
    Text(String),
    /// A soft or hard line break.
    Break,
    Other,
}

pub enum MdEventView {
    Start(MdTag),
    End,
    Text(Seq<char>),
    Break,
    Other,
}

impl View for MdEvent {
    type V = MdEventView;

    open spec fn view(&self) -> MdEventView {
        match self {
            MdEvent::Start(t) => MdEventView::Start(*t),
            MdEvent::End => MdEventView::End,
            MdEvent::Text(s) => MdEventView::Text(s@),
            MdEvent::Break => MdEventView::Break,
            MdEvent::Other => MdEventView::Other,
        }
    }
}

pub open spec fn events_view(v: Seq<MdEvent>) -> Seq<MdEventView> {
    v.map_values(|e: MdEvent| e@)
}

/// The events `pulldown_cmark::Parser::new` yields for `markdown`, as read by the book.
pub uninterp spec fn markdown_events_of(markdown: Seq<char>) -> Seq<MdEventView>;

/// Runs `pulldown_cmark::Parser::new` (no extensions) over `markdown` and
/// converts each event: heading, paragraph and item starts keep their tag,
/// other starts become `Start(Other)`; every end becomes `End`; text and
/// inline code become `Text`; soft and hard breaks become `Break`; the rest
/// `Other`. The parse itself is named `markdown_events_of`.
#[verifier::external_body]
pub(crate) fn markdown_events(markdown: &str) -> (r: Vec<MdEvent>)
    ensures
        events_view(r@) == markdown_events_of(markdown@),
{
    pulldown_cmark::Parser::new(markdown).map(|e| match e {
        Event::Start(Tag::Heading { level, .. }) => MdEvent::Start(MdTag::Heading(level as u8)),
        Event::Start(Tag::Paragraph) => MdEvent::Start(MdTag::Paragraph),
        Event::Start(Tag::Item) => MdEvent::Start(MdTag::Item),
        Event::Start(_) => MdEvent::Start(MdTag::Other),
        Event::End(_) => MdEvent::End,
        Event::Text(t) | Event::Code(t) => MdEvent::Text(t.into_string()),
        Event::SoftBreak | Event::HardBreak => MdEvent::Break,
        _ => MdEvent::Other,
    }).collect()
}

// ───────────────────────── from events to a book ─────────────────────────

/// The kind of block whose text is being collected.
#[derive(Debug, Clone, Copy, PartialEq, Eq)]
pub enum BlockKind {
    Heading(u8),
    Paragraph,
    ListItem,
}

struct ActiveBlock {
    kind: BlockKind,
    depth: usize,
    text: String,
}

pub struct ActiveView {
    pub kind: BlockKind,
    pub depth: nat,
    pub text: Seq<char>,
}

impl View for ActiveBlock {
    type V = ActiveView;

    closed spec fn view(&self) -> ActiveView {
        ActiveView { kind: self.kind, depth: self.depth as nat, text: self.text@ }
    }
}

spec fn active_view(a: Option<ActiveBlock>) -> Option<ActiveView> {
    match a {
        Some(b) => Some(b@),
        None => None,
    }
}

/// Hands a finished block to the builder: the first level-1 heading of an
/// untouched book is its title (unless it reads as a chapter heading), other
/// headings up to level 3 start chapters, and the rest are paragraphs.
pub open spec fn push_block_op(b: BuilderView, kind: BlockKind, text: Seq<char>) -> BuilderView {
    let t = trim(text);
    if t.len() == 0 {
        b
    } else {
        match kind {
            BlockKind::Heading(level) => if level == 1 && pristine(b) {
                if !chapter_heading(t, b.options) {
                    set_title_op(b, t)
                } else {
                    chapter_title_op(b, t)
                }
            } else if level <= 3 {
                chapter_title_op(b, t)
            } else {
                paragraph_op(b, t)
            },
            _ => paragraph_op(b, t),
        }
    }
}

pub struct MdState {
    pub builder: BuilderView,
    pub active: Option<ActiveView>,
}

/// One event: a start opens a block (or nests in the open one), text and
/// breaks extend the open block, and the end that closes it hands it over.
pub open spec fn md_step(st: MdState, ev: MdEventView) -> MdState {
    match ev {
        MdEventView::Start(tag) => match st.active {
            Some(a) => MdState { active: Some(ActiveView { depth: a.depth + 1, ..a }), ..st },
            None => match tag {
                MdTag::Heading(l) => MdState {
                    active: Some(
                        ActiveView { kind: BlockKind::Heading(l), depth: 1, text: Seq::empty() },
                    ),
                    ..st
                },
                MdTag::Paragraph => MdState {
                    active: Some(
                        ActiveView { kind: BlockKind::Paragraph, depth: 1, text: Seq::empty() },
                    ),
                    ..st
                },
                MdTag::Item => MdState {
                    active: Some(
                        ActiveView { kind: BlockKind::ListItem, depth: 1, text: Seq::empty() },
                    ),
                    ..st
                },
                MdTag::Other => st,
            },
        },
        MdEventView::End => match st.active {
            Some(a) => {
                let d: nat = if a.depth > 0 {
                    (a.depth - 1) as nat
                } else {
                    0
                };
                if d == 0 {
                    MdState { builder: push_block_op(st.builder, a.kind, a.text), active: None }
                } else {
                    MdState { active: Some(ActiveView { depth: d, ..a }), ..st }
                }
            },
            None => st,
        },
        MdEventView::Text(t) => match st.active {
            Some(a) => MdState { active: Some(ActiveView { text: a.text + t, ..a }), ..st },
            None => st,
        },
        MdEventView::Break => match st.active {
            Some(a) => MdState { active: Some(ActiveView { text: a.text.push(' '), ..a }), ..st },
            None => st,
        },
        MdEventView::Other => st,
    }
}

pub open spec fn md_fold(init: MdState, events: Seq<MdEventView>) -> MdState
    decreases events.len(),
{
    if events.len() == 0 {
        init
    } else {
        md_step(md_fold(init, events.drop_last()), events.last())
    }
}

/// The book a Markdown event stream makes.
pub open spec fn markdown_book(
    events: Seq<MdEventView>,
    fallback: Seq<char>,
    frontmatter_title: Option<Seq<char>>,
    o: ParseOptions,
) -> Option<BookView> {
    let b0 = new_builder(fallback, o);
    let b1 = match frontmatter_title {
        Some(t) => set_title_op(b0, t),
        None => b0,
    };
    let st = md_fold(MdState { builder: b1, active: None }, events);
    let b2 = match st.active {
        Some(a) => push_block_op(st.builder, a.kind, a.text),
        None => st.builder,
    };
    finished_book(b2)
}

fn push_block(block: ActiveBlock, builder: &mut BookBuilder, options: &ParseOptions)
    requires
        old(builder)@.options == *options,
    ensures
        final(builder)@ == push_block_op(old(builder)@, block@.kind, block@.text),
        final(builder)@.options == *options,
{
    let v = chars_of(block.text.as_str());
    let t = trim_chars(v.as_slice());
    if t.len() == 0 {
        return;
    }
    let text = string_from_chars(t.as_slice());
    match block.kind {
        BlockKind::Heading(level) => {
            if level == 1 && builder.is_pristine() {
                if !chapter_heading_chars(t.as_slice(), options) {
                    builder.set_book_title_if_absent(text.as_str());
                } else {
                    builder.push_chapter_title(text.as_str());
                }
            } else if level <= 3 {
                builder.push_chapter_title(text.as_str());
            } else {
                builder.push_paragraph(text.as_str());
            }
        },
        _ => builder.push_paragraph(text.as_str()),
    }
}

/// Builds the book an event stream describes.
pub fn book_from_markdown_events(
    events: &Vec<MdEvent>,
    path: &Path,
    fallback_title: &str,
    frontmatter_title: Option<String>,
    options: &ParseOptions,
) -> (r: Result<Book, BookError>)
    ensures
        book_result(
            r,
            markdown_book(events_view(events@), fallback_title@, opt_view(frontmatter_title), *options),
        ),
{
    let ghost ev = events_view(events@);
    let mut builder = BookBuilder::new(fallback_title, *options);
    match &frontmatter_title {
        Some(t) => builder.set_book_title_if_absent(t.as_str()),
        None => {},
    }
    let ghost init = MdState { builder: builder@, active: None };
    let mut active: Option<ActiveBlock> = None;
    let mut i: usize = 0;
    assert(ev.take(0) =~= Seq::<MdEventView>::empty());
    while i < events.len()
        invariant
            i <= events.len(),
            ev == events_view(events@),
            builder@.options == *options,
            init.builder.options == *options,
            md_fold(init, ev.take(i as int)) == (MdState { builder: builder@, active: active_view(active) }),
            active matches Some(a) ==> a@.depth <= i,
        decreases events.len() - i,
    {
        assert(ev.take(i + 1).drop_last() =~= ev.take(i as int));
        assert(ev.take(i + 1).last() == events@[i as int]@);
        match &events[i] {
            MdEvent::Start(tag) => {
                match active {
                    Some(mut b) => {
                        b.depth = b.depth + 1;
                        active = Some(b);
                    },
                    None => {
                        match tag {
                            MdTag::Heading(l) => {
                                active = Some(ActiveBlock { kind: BlockKind::Heading(*l), depth: 1, text: String::new() });
                            },
                            MdTag::Paragraph => {
                                active = Some(ActiveBlock { kind: BlockKind::Paragraph, depth: 1, text: String::new() });
                            },
                            MdTag::Item => {
                                active = Some(ActiveBlock { kind: BlockKind::ListItem, depth: 1, text: String::new() });
                            },
                            MdTag::Other => {},
                        }
                    },
                }
            },
            MdEvent::End => {
                match active {
                    Some(mut b) => {
                        b.depth = if b.depth > 0 {
                            b.depth - 1
                        } else {
                            0
                        };
                        if b.depth == 0 {
                            push_block(b, &mut builder, options);
                            active = None;
                        } else {
                            active = Some(b);
                        }
                    },
                    None => {},
                }
            },
            MdEvent::Text(t) => {
                match active {
                    Some(mut b) => {
                        b.text.append(t.as_str());
                        active = Some(b);
                    },
                    None => {},
                }
            },
            MdEvent::Break => {
                match active {
                    Some(mut b) => {
                        push_char(&mut b.text, ' ');
                        active = Some(b);
                    },
                    None => {},
                }
            },
            MdEvent::Other => {},
        }
        i = i + 1;
    }
    assert(ev.take(events.len() as int) =~= ev);
    match active {
        Some(b) => push_block(b, &mut builder, options),
        None => {},
    }
    builder.finish(path)
}

/// Parses a Markdown body; when no front-matter title is passed, the body's
/// own front matter is looked for first.
pub fn parse_markdown_str(
    markdown: &str,
    path: &Path,
    fallback_title: &str,
    frontmatter_title: Option<String>,
    options: &ParseOptions,
) -> (r: Result<Book, BookError>)
    ensures
        ({
            let (fm, body) = match frontmatter_title {
                Some(t) => (Some(t@), markdown@),
                None => split_frontmatter_spec(markdown@),
            };
            book_result(r, markdown_book(markdown_events_of(body), fallback_title@, fm, *options))
        }),
{
    let (fm, body) = match frontmatter_title {
        Some(t) => {
            let mut b = String::new();
            b.append(markdown);
            (Some(t), b)
        },
        None => split_frontmatter(markdown),
    };
    let events = markdown_events(body.as_str());
    book_from_markdown_events(&events, path, fallback_title, fm, options)
}

/// The book a Markdown source makes when its file stem gives `stem_title`.
pub open spec fn markdown_source_book(raw: Seq<char>, stem_title: Seq<char>, o: ParseOptions) -> Option<
    BookView,
> {
    let (fm, body) = split_frontmatter_spec(raw);
    let fallback = match fm {
        Some(t) => t,
        None => stem_title,
    };
    let (fm2, body2) = match fm {
        Some(t) => (Some(t), body),
        None => split_frontmatter_spec(body),
    };
    markdown_book(markdown_events_of(body2), fallback, fm2, o)
}

/// Parses a Markdown book read from `path`: the front-matter title, else the
/// file's stem, is the fallback title.
pub fn parse_markdown(path: &Path, raw: &str, options: &ParseOptions) -> (r: Result<Book, BookError>)
    ensures
        exists|stem: Option<Seq<char>>|
            book_result(r, #[trigger] markdown_source_book(raw@, title_from_stem(stem), *options)),
{
    let (fm, body) = split_frontmatter(raw);
    let fallback = match &fm {
        Some(t) => t.clone(),
        None => default_title_from_path(path),
    };
    let ghost fmv = opt_view(fm);
    let r = parse_markdown_str(body.as_str(), path, fallback.as_str(), fm, options);
    proof {
        match fmv {
            Some(t) => {
                let stem: Option<Seq<char>> = None;
                assert(book_result(r, markdown_source_book(raw@, title_from_stem(stem), *options)));
            },
            None => {
                let stem = choose|stem: Option<Seq<char>>| fallback@ == title_from_stem(stem);
                assert(book_result(r, markdown_source_book(raw@, title_from_stem(stem), *options)));
            },
        }
    }
    r
}

} // verus!
