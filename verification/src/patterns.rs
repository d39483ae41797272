//! The outside pattern matchers the parsers lean on: regular expressions and
//! URL slugs.
use vstd::prelude::*;

verus! {

/// Page numbers such as `42`, `xiv` or `Page 7`.
pub const PAGE_NUMBER_PATTERN: &'static str = r"(?i)^(page\s+)?(?:\d+|[ivxlcdm]+)$";

/// Headings that open with a structural word: `Chapter 12 - The Tomb`, `Prologue`.
pub const CHAPTER_HEADING_PATTERN: &'static str = r#"(?ix)
            ^
            (chapter|chap\.?|book|part|volume|vol\.?|section|scene|prologue|epilogue|interlude|afterword|appendix|preface|foreword)
            \b
            [\s:.\-–—]*
            [\p{L}\p{N}\s:.\-–—,'"()!?]*$
        "#;

/// Chinese headings such as `第十二章 王都`.
pub const CHINESE_HEADING_PATTERN: &'static str = r"^第[0-9一二三四五六七八九十百千万零〇两]+[章节卷部篇回节集][：:、.\- ]*.*$";

/// Headings numbered in Roman numerals: `Book IV`, `Part ii: Return`.
pub const ROMAN_HEADING_PATTERN: &'static str = r#"(?ix)^(book|part|volume|chapter)\s+[ivxlcdm]+\b[\s:.\-–—]*[\p{L}\p{N}\s:.\-–—,'"()!?]*$"#;

/// Whether `regex::Regex::new(pattern)` compiles and its `is_match` accepts `text`.
pub uninterp spec fn regex_matches(pattern: Seq<char>, text: Seq<char>) -> bool;

/// Compiles `pattern` with `regex::Regex::new` and runs `Regex::is_match` on
/// `text`, answering false when the pattern does not compile. Claims only that
/// the answer is a function of the pattern and the text, named `regex_matches`;
/// what the pattern language accepts is left to the regex crate.
#[verifier::external_body]
pub(crate) fn regex_is_match(pattern: &str, text: &str) -> (r: bool)
    ensures
        r == regex_matches(pattern@, text@),
{
    regex::Regex::new(pattern).map(|re| re.is_match(text)).unwrap_or(false)
}

/// What `slug::slugify` returns for `text`.
pub uninterp spec fn slugify_spec(text: Seq<char>) -> Seq<char>;

/// The characters a slug is made of: `a`–`z`, `0`–`9` and `-`.
pub open spec fn is_slug_char(c: char) -> bool {
    ('a' <= c && c <= 'z') || ('0' <= c && c <= '9') || c == '-'
}

/// Calls `slug::slugify`. Its documentation promises that the slug consists of
/// `a`–`z`, `0`–`9` and `-`, and never starts or ends with `-`; how other
/// characters are transliterated is left unsaid and named `slugify_spec`.
#[verifier::external_body]
pub(crate) fn slugify(text: &str) -> (r: String)
    ensures
        r@ == slugify_spec(text@),
        forall|i: int| 0 <= i < r@.len() ==> is_slug_char(#[trigger] r@[i]),
        r@.len() > 0 ==> r@[0] != '-' && r@.last() != '-',
{
    slug::slugify(text)
}

} // verus!
