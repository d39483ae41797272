//! The parsed book: chapters of identified paragraphs, and the structured
//! annotations produced for a paragraph.
use vstd::prelude::*;

verus! {

/// What a paragraph holds: prose to translate, or a code block.
#[derive(Debug, Clone, PartialEq, Eq)]
pub enum ParagraphKind {
    Text,
    CodeBlock { language: Option<String> },
}

impl Default for ParagraphKind {
    fn default() -> (r: Self)
        ensures
            r is Text,
    {
        ParagraphKind::Text
    }
}

/// The view of an optional string.
pub open spec fn opt_view(o: Option<String>) -> Option<Seq<char>> {
    match o {
        Some(s) => Some(s@),
        None => None,
    }
}

pub enum KindView {
    Text,
    CodeBlock(Option<Seq<char>>),
}

impl View for ParagraphKind {
    type V = KindView;

    open spec fn view(&self) -> KindView {
        match self {
            ParagraphKind::Text => KindView::Text,
            ParagraphKind::CodeBlock { language } => KindView::CodeBlock(opt_view(*language)),
        }
    }
}

/// A single paragraph extracted from a source chapter.
#[derive(Debug, Clone)]
pub struct Paragraph {
    /// Unique ID: "{book_slug}-ch{chapter:03}-p{para:04}"
    pub id: String,
    /// The raw text of this paragraph.
    pub text: String,
    pub kind: ParagraphKind,
}

pub struct ParagraphView {
    pub id: Seq<char>,
    pub text: Seq<char>,
    pub kind: KindView,
}

impl View for Paragraph {
    type V = ParagraphView;

    open spec fn view(&self) -> ParagraphView {
        ParagraphView { id: self.id@, text: self.text@, kind: self.kind@ }
    }
}

impl Paragraph {
    /// Prose paragraphs are translated; code blocks are not.
    pub fn is_translatable(&self) -> (r: bool)
        ensures
            r == (self.kind is Text),
    {
        match self.kind {
            ParagraphKind::Text => true,
            ParagraphKind::CodeBlock { .. } => false,
        }
    }
}

pub open spec fn paragraphs_view(v: Seq<Paragraph>) -> Seq<ParagraphView> {
    v.map_values(|p: Paragraph| p@)
}

/// A chapter extracted from the source document.
#[derive(Debug, Clone)]
pub struct Chapter {
    pub index: usize,
    pub title: Option<String>,
    pub paragraphs: Vec<Paragraph>,
}

pub struct ChapterView {
    pub index: nat,
    pub title: Option<Seq<char>>,
    pub paragraphs: Seq<ParagraphView>,
}

impl View for Chapter {
    type V = ChapterView;

    open spec fn view(&self) -> ChapterView {
        ChapterView {
            index: self.index as nat,
            title: opt_view(self.title),
            paragraphs: paragraphs_view(self.paragraphs@),
        }
    }
}

pub open spec fn chapters_view(v: Seq<Chapter>) -> Seq<ChapterView> {
    v.map_values(|c: Chapter| c@)
}

/// A parsed book, regardless of input format.
#[derive(Debug, Clone)]
pub struct Book {
    pub slug: String,
    pub title: String,
    pub chapters: Vec<Chapter>,
}

pub struct BookView {
    pub slug: Seq<char>,
    pub title: Seq<char>,
    pub chapters: Seq<ChapterView>,
}

impl View for Book {
    type V = BookView;

    open spec fn view(&self) -> BookView {
        BookView { slug: self.slug@, title: self.title@, chapters: chapters_view(self.chapters@) }
    }
}

/// The structured annotations returned for each paragraph.
#[derive(Debug, Clone)]
pub struct LlmResponse {
    pub translation: String,
    pub vocabulary: Vec<VocabEntry>,
    pub chunks: Vec<ChunkEntry>,
}

/// A vocabulary entry.
#[derive(Debug, Clone)]
pub struct VocabEntry {
    pub word: String,
    pub ipa: String,
    pub pos: String,
    pub cn: String,
    pub example: String,
}

/// A useful language chunk / collocation entry.
#[derive(Debug, Clone)]
pub struct ChunkEntry {
    pub chunk: String,
    pub cn: String,
    pub example: String,
}

pub struct VocabView {
    pub word: Seq<char>,
    pub ipa: Seq<char>,
    pub pos: Seq<char>,
    pub cn: Seq<char>,
    pub example: Seq<char>,
}

pub struct ChunkView {
    pub chunk: Seq<char>,
    pub cn: Seq<char>,
    pub example: Seq<char>,
}

pub struct ResponseView {
    pub translation: Seq<char>,
    pub vocabulary: Seq<VocabView>,
    pub chunks: Seq<ChunkView>,
}

impl View for VocabEntry {
    type V = VocabView;

    open spec fn view(&self) -> VocabView {
        VocabView {
            word: self.word@,
            ipa: self.ipa@,
            pos: self.pos@,
            cn: self.cn@,
            example: self.example@,
        }
    }
}

impl View for ChunkEntry {
    type V = ChunkView;

    open spec fn view(&self) -> ChunkView {
        ChunkView { chunk: self.chunk@, cn: self.cn@, example: self.example@ }
    }
}

impl View for LlmResponse {
    type V = ResponseView;

    open spec fn view(&self) -> ResponseView {
        ResponseView {
            translation: self.translation@,
            vocabulary: self.vocabulary@.map_values(|e: VocabEntry| e@),
            chunks: self.chunks@.map_values(|e: ChunkEntry| e@),
        }
    }
}

/// Why a book could not be read.
#[derive(Debug, Clone, PartialEq, Eq)]
pub enum BookError {
    /// No chapter held a readable paragraph; holds how the source path displays.
    NoReadableParagraphs(String),
    /// The file's extension is not one of the supported formats.
    UnsupportedInput(String),
    /// A text or Markdown file that is not valid UTF-8.
    NotUtf8(String),
    /// An EPUB archive that could not be opened.
    UnreadableEpub(String),
}

/// `std::path::Path`, carried through opaquely.
#[verifier::external_type_specification]
#[verifier::external_body]
pub struct ExPath(std::path::Path);

} // verus!
