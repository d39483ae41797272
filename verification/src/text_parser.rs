//! Plain-text books: lines are grouped into headings and paragraphs, and the
//! blocks are fed to the book builder.
use vstd::prelude::*;
use std::path::Path;
use crate::parse_utils::{
    chapter_heading, chapter_heading_chars, default_title_from_path, finished_book,
    looks_like_book_title_candidate, looks_like_chapter_heading, new_builder, paragraph_op,
    chapter_title_op, set_title_op, strip_heading_prefix, strip_heading_prefix_chars,
    title_candidate, title_from_stem, book_result, BookBuilder, BuilderView, ParseOptions,
};
use crate::search::{
    char_vecs_view, join, join_strings, lines, lines_chars, replace_all, replace_all_chars,
    strings_view,
};
use crate::text::{
    chars_equal, chars_of, is_whitespace_char, is_ws, nonws_count, lemma_nonws_count_le,
    string_from_chars, trim, trim_chars, trim_end,
};
use crate::types::{Book, BookError, BookView};

verus! {

/// A block of a plain-text book.
#[derive(Debug, Clone, PartialEq, Eq)]
pub enum TextBlock {
    Heading(String),
    Paragraph(String),
}

pub enum BlockView {
    Heading(Seq<char>),
    Paragraph(Seq<char>),
}

impl View for TextBlock {
    type V = BlockView;

    open spec fn view(&self) -> BlockView {
        match self {
            TextBlock::Heading(s) => BlockView::Heading(s@),
            TextBlock::Paragraph(s) => BlockView::Paragraph(s@),
        }
    }
}

pub open spec fn blocks_view(v: Seq<TextBlock>) -> Seq<BlockView> {
    v.map_values(|b: TextBlock| b@)
}

/// Characters a scene break is drawn with: `* • - — ~ _`.
pub open spec fn is_scene_char(c: char) -> bool {
    c == '*' || c == '\u{2022}' || c == '-' || c == '\u{2014}' || c == '~' || c == '_'
}

/// A line of three or more break marks, whitespace aside (`* * *`, `---`).
pub open spec fn scene_break(line: Seq<char>) -> bool {
    &&& nonws_count(line) >= 3
    &&& forall|i: int| 0 <= i < line.len() && !is_ws(#[trigger] line[i]) ==> is_scene_char(line[i])
}

fn is_scene_char_exec(c: char) -> (r: bool)
    ensures
        r == is_scene_char(c),
{
    c == '*' || c == '\u{2022}' || c == '-' || c == '\u{2014}' || c == '~' || c == '_'
}

fn scene_break_chars(line: &[char]) -> (r: bool)
    ensures
        r == scene_break(line@),
{
    let mut n: usize = 0;
    let mut i: usize = 0;
    while i < line.len()
        invariant
            i <= line.len(),
            n == nonws_count(line@.take(i as int)),
        decreases line.len() - i,
    {
        assert(line@.take(i + 1).drop_last() == line@.take(i as int));
        proof {
            lemma_nonws_count_le(line@.take(i as int));
        }
        if !is_whitespace_char(line[i]) {
            n = n + 1;
        }
        i = i + 1;
    }
    assert(line@.take(line.len() as int) == line@);
    if n < 3 {
        return false;
    }
    let mut k: usize = 0;
    while k < line.len()
        invariant
            k <= line.len(),
            forall|j: int| 0 <= j < k && !is_ws(#[trigger] line@[j]) ==> is_scene_char(line@[j]),
        decreases line.len() - k,
    {
        if !is_whitespace_char(line[k]) && !is_scene_char_exec(line[k]) {
            return false;
        }
        k = k + 1;
    }
    true
}

/// Characters that end a sentence, closing quotes and brackets included.
pub open spec fn is_sentence_end_char(c: char) -> bool {
    ||| c == '.'
    ||| c == '!'
    ||| c == '?'
    ||| c == '\u{3002}'
    ||| c == '\u{ff01}'
    ||| c == '\u{ff1f}'
    ||| c == '\u{2026}'
    ||| c == '"'
    ||| c == '\''
    ||| c == '\u{201d}'
    ||| c == '\u{2019}'
    ||| c == ')'
    ||| c == '\u{300d}'
    ||| c == '\u{300f}'
}

/// The line, trailing whitespace aside, ends with a sentence-ending character.
pub open spec fn ends_sentence(line: Seq<char>) -> bool {
    let t = trim_end(line);
    t.len() > 0 && is_sentence_end_char(t.last())
}

fn ends_sentence_chars(line: &[char]) -> (r: bool)
    ensures
        r == ends_sentence(line@),
{
    let mut end = line.len();
    assert(line@.take(end as int) == line@);
    while end > 0 && is_whitespace_char(line[end - 1])
        invariant
            end <= line.len(),
            trim_end(line@) == trim_end(line@.take(end as int)),
        decreases end,
    {
        assert(line@.take(end as int).drop_last() == line@.take(end - 1));
        end = end - 1;
    }
    if end == 0 {
        return false;
    }
    assert(trim_end(line@.take(end as int)) == line@.take(end as int));
    let c = line[end - 1];
    c == '.' || c == '!' || c == '?' || c == '\u{3002}' || c == '\u{ff01}' || c == '\u{ff1f}'
        || c == '\u{2026}' || c == '"' || c == '\'' || c == '\u{201d}' || c == '\u{2019}' || c
        == ')' || c == '\u{300d}' || c == '\u{300f}'
}

/// A Markdown heading (`## Title`) gives its text; a line that reads as a
/// chapter heading gives itself, trimmed.
pub open spec fn classify_heading(line: Seq<char>, o: ParseOptions) -> Option<Seq<char>> {
    let md = strip_heading_prefix(line);
    if md != line {
        Some(md)
    } else if chapter_heading(line, o) {
        Some(trim(line))
    } else {
        None
    }
}

fn classify_heading_chars(line: &[char], options: &ParseOptions) -> (r: Option<Vec<char>>)
    ensures
        match classify_heading(line@, *options) {
            Some(h) => r matches Some(v) && v@ == h,
            None => r is None,
        },
{
    let md = strip_heading_prefix_chars(line);
    if !chars_equal(md.as_slice(), line) {
        return Some(md);
    }
    if chapter_heading_chars(line, options) {
        Some(trim_chars(line))
    } else {
        None
    }
}

/// What the segmenter carries from line to line.
pub struct SegState {
    pub blocks: Seq<BlockView>,
    pub current: Seq<Seq<char>>,
    pub prev_ended: bool,
}

/// Closes the paragraph being collected: its lines joined by spaces.
pub open spec fn flush_lines(blocks: Seq<BlockView>, current: Seq<Seq<char>>) -> Seq<BlockView> {
    if current.len() == 0 {
        blocks
    } else {
        blocks.push(BlockView::Paragraph(join(current, " "@)))
    }
}

/// One line: blank lines and scene breaks end the paragraph; headings stand
/// alone; other lines join the paragraph, which first ends when lines are
/// hard breaks, when the line is indented, or after a finished sentence.
pub open spec fn seg_step(st: SegState, raw_line: Seq<char>, o: ParseOptions) -> SegState {
    let t = trim(raw_line);
    if t.len() == 0 || scene_break(t) {
        SegState { blocks: flush_lines(st.blocks, st.current), current: Seq::empty(), prev_ended: false }
    } else {
        match classify_heading(t, o) {
            Some(h) => SegState {
                blocks: flush_lines(st.blocks, st.current).push(BlockView::Heading(h)),
                current: Seq::empty(),
                prev_ended: false,
            },
            None => {
                let indented = raw_line.len() > 0 && (raw_line[0] == ' ' || raw_line[0] == '\t');
                let split = o.txt_hard_linebreaks || indented || (o.txt_split_on_sentence_end
                    && st.prev_ended);
                if st.current.len() > 0 && split {
                    SegState {
                        blocks: flush_lines(st.blocks, st.current),
                        current: seq![t],
                        prev_ended: ends_sentence(t),
                    }
                } else {
                    SegState {
                        blocks: st.blocks,
                        current: st.current.push(t),
                        prev_ended: ends_sentence(t),
                    }
                }
            },
        }
    }
}

pub open spec fn seg_fold(ls: Seq<Seq<char>>, o: ParseOptions) -> SegState
    decreases ls.len(),
{
    if ls.len() == 0 {
        SegState { blocks: Seq::empty(), current: Seq::empty(), prev_ended: false }
    } else {
        seg_step(seg_fold(ls.drop_last(), o), ls.last(), o)
    }
}

/// `raw` with `\r\n` and lone `\r` turned into `\n`.
pub open spec fn unify_newlines(raw: Seq<char>) -> Seq<char> {
    replace_all(replace_all(raw, seq!['\r', '\n'], seq!['\n']), seq!['\r'], seq!['\n'])
}

/// The blocks of a plain-text book.
pub open spec fn segment_blocks(raw: Seq<char>, o: ParseOptions) -> Seq<BlockView> {
    let st = seg_fold(lines(unify_newlines(raw)), o);
    flush_lines(st.blocks, st.current)
}

fn flush_current(current: &mut Vec<String>, blocks: &mut Vec<TextBlock>)
    ensures
        blocks_view(final(blocks)@) == flush_lines(blocks_view(old(blocks)@), strings_view(old(current)@)),
        final(current)@.len() == 0,
{
    if current.len() == 0 {
        return;
    }
    let joined = join_strings(current, " ");
    let ghost before = blocks_view(blocks@);
    blocks.push(TextBlock::Paragraph(joined));
    assert(blocks_view(blocks@) =~= before.push(BlockView::Paragraph(joined@)));
    *current = Vec::new();
}

/// Splits a plain-text book into headings and paragraphs.
pub fn segment_text_blocks(raw: &str, options: &ParseOptions) -> (r: Vec<TextBlock>)
    ensures
        blocks_view(r@) == segment_blocks(raw@, *options),
{
    let v = chars_of(raw);
    let crlf = vec!['\r', '\n'];
    let lf = vec!['\n'];
    let cr = vec!['\r'];
    assert(crlf@ =~= seq!['\r', '\n']);
    assert(lf@ =~= seq!['\n']);
    assert(cr@ =~= seq!['\r']);
    let a = replace_all_chars(v.as_slice(), crlf.as_slice(), lf.as_slice());
    let b = replace_all_chars(a.as_slice(), cr.as_slice(), lf.as_slice());
    assert(b@ == unify_newlines(raw@));
    let ls = lines_chars(b.as_slice());
    let ghost lv = char_vecs_view(ls@);
    let mut blocks: Vec<TextBlock> = Vec::new();
    let mut current: Vec<String> = Vec::new();
    let mut prev_ended = false;
    let mut i: usize = 0;
    assert(blocks_view(blocks@) =~= Seq::<BlockView>::empty());
    assert(strings_view(current@) =~= Seq::<Seq<char>>::empty());
    while i < ls.len()
        invariant
            i <= ls.len(),
            lv == char_vecs_view(ls@),
            lv == lines(unify_newlines(raw@)),
            blocks_view(blocks@) == seg_fold(lv.take(i as int), *options).blocks,
            strings_view(current@) == seg_fold(lv.take(i as int), *options).current,
            prev_ended == seg_fold(lv.take(i as int), *options).prev_ended,
        decreases ls.len() - i,
    {
        assert(lv.take(i + 1).drop_last() == lv.take(i as int));
        assert(lv[i as int] == ls@[i as int]@);
        let line = &ls[i];
        let trimmed = trim_chars(line.as_slice());
        if trimmed.len() == 0 || scene_break_chars(trimmed.as_slice()) {
            flush_current(&mut current, &mut blocks);
            assert(strings_view(current@) =~= Seq::<Seq<char>>::empty());
            prev_ended = false;
        } else {
            match classify_heading_chars(trimmed.as_slice(), options) {
                Some(h) => {
                    flush_current(&mut current, &mut blocks);
                    assert(strings_view(current@) =~= Seq::<Seq<char>>::empty());
                    let ghost before = blocks_view(blocks@);
                    blocks.push(TextBlock::Heading(string_from_chars(h.as_slice())));
                    assert(blocks_view(blocks@) =~= before.push(BlockView::Heading(h@)));
                    prev_ended = false;
                },
                None => {
                    let indented = line.len() > 0 && (line[0] == ' ' || line[0] == '\t');
                    let should_split = options.txt_hard_linebreaks || indented || (
                    options.txt_split_on_sentence_end && prev_ended);
                    if current.len() > 0 && should_split {
                        flush_current(&mut current, &mut blocks);
                    }
                    let ghost before = strings_view(current@);
                    current.push(string_from_chars(trimmed.as_slice()));
                    assert(strings_view(current@) =~= before.push(trimmed@));
                    prev_ended = ends_sentence_chars(trimmed.as_slice());
                },
            }
        }
        i = i + 1;
    }
    assert(lv.take(ls.len() as int) == lv);
    flush_current(&mut current, &mut blocks);
    blocks
}

/// Feeds blocks to a builder: headings start chapters, paragraphs join them.
pub open spec fn apply_blocks(b: BuilderView, blocks: Seq<BlockView>) -> BuilderView
    decreases blocks.len(),
{
    if blocks.len() == 0 {
        b
    } else {
        let p = apply_blocks(b, blocks.drop_last());
        match blocks.last() {
            BlockView::Heading(t) => chapter_title_op(p, t),
            BlockView::Paragraph(t) => paragraph_op(p, t),
        }
    }
}

/// The first block is the book title: a heading that is no chapter heading,
/// or a paragraph that reads as a title.
pub open spec fn first_block_is_title(blocks: Seq<BlockView>, o: ParseOptions) -> bool {
    blocks.len() > 0 && match blocks[0] {
        BlockView::Heading(t) => !chapter_heading(t, o),
        BlockView::Paragraph(t) => title_candidate(t, o),
    }
}

pub open spec fn block_text(b: BlockView) -> Seq<char> {
    match b {
        BlockView::Heading(t) => t,
        BlockView::Paragraph(t) => t,
    }
}

/// The book a plain text makes, with `fallback` as the title when none is found.
pub open spec fn text_book(raw: Seq<char>, fallback: Seq<char>, o: ParseOptions) -> Option<
    BookView,
> {
    let blocks = segment_blocks(raw, o);
    let b0 = new_builder(fallback, o);
    if first_block_is_title(blocks, o) {
        finished_book(apply_blocks(set_title_op(b0, block_text(blocks[0])), blocks.drop_first()))
    } else {
        finished_book(apply_blocks(b0, blocks))
    }
}

/// Parses a plain-text book whose fallback title is `fallback_title`.
pub fn parse_text_str(raw: &str, path: &Path, fallback_title: &str, options: &ParseOptions) -> (r:
    Result<Book, BookError>)
    ensures
        book_result(r, text_book(raw@, fallback_title@, *options)),
{
    let blocks = segment_text_blocks(raw, options);
    let ghost bv = blocks_view(blocks@);
    let mut builder = BookBuilder::new(fallback_title, *options);
    let ghost b0 = builder@;
    let mut start: usize = 0;
    if blocks.len() > 0 {
        assert(bv[0] == blocks@[0]@);
        match &blocks[0] {
            TextBlock::Heading(title) => {
                if !looks_like_chapter_heading(title.as_str(), options) {
                    builder.set_book_title_if_absent(title.as_str());
                    start = 1;
                }
            },
            TextBlock::Paragraph(title) => {
                if looks_like_book_title_candidate(title.as_str(), options) {
                    builder.set_book_title_if_absent(title.as_str());
                    start = 1;
                }
            },
        }
    }
    assert(start == 1 <==> first_block_is_title(bv, *options));
    let ghost b1 = builder@;
    let ghost rest = bv.skip(start as int);
    let mut k = start;
    assert(rest.take(0) =~= Seq::<BlockView>::empty());
    while k < blocks.len()
        invariant
            start <= k <= blocks.len(),
            bv == blocks_view(blocks@),
            rest == bv.skip(start as int),
            builder@ == apply_blocks(b1, rest.take(k - start)),
        decreases blocks.len() - k,
    {
        assert(rest.take(k + 1 - start).drop_last() =~= rest.take(k - start));
        assert(rest.take(k + 1 - start).last() == blocks@[k as int]@);
        match &blocks[k] {
            TextBlock::Heading(t) => builder.push_chapter_title(t.as_str()),
            TextBlock::Paragraph(t) => builder.push_paragraph(t.as_str()),
        }
        k = k + 1;
    }
    assert(rest.take(blocks.len() - start) =~= rest);
    assert(bv.skip(0) =~= bv);
    assert(bv.skip(1) =~= bv.drop_first());
    builder.finish(path)
}

/// Parses a plain-text book read from `path`; the fallback title is the
/// file's stem.
pub fn parse_text(path: &Path, raw: &str, options: &ParseOptions) -> (r: Result<Book, BookError>)
    ensures
        exists|stem: Option<Seq<char>>|
            book_result(r, #[trigger] text_book(raw@, title_from_stem(stem), *options)),
{
    let fallback = default_title_from_path(path);
    let r = parse_text_str(raw, path, fallback.as_str(), options);
    let ghost stem = choose|stem: Option<Seq<char>>| fallback@ == title_from_stem(stem);
    assert(book_result(r, text_book(raw@, title_from_stem(stem), *options)));
    r
}

} // verus!
