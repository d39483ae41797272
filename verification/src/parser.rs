//! Which input formats are read, and dispatch to the matching parser.
use vstd::prelude::*;
use crate::html_gen::{opt_str, opt_string};
use std::path::Path;
use vstd::utf8::{decode_utf8, valid_utf8};
use crate::epub::{epub_parsed, parse_epub};
use crate::markdown::{markdown_source_book, parse_markdown};
use crate::parse_utils::{book_result, display_path, title_from_stem, ParseOptions};
use crate::search::{join, join_strings};
use crate::text::{ascii_lower_chars, ascii_lower_seq, chars_equal, chars_of};
use crate::text_parser::{parse_text, text_book};
use crate::types::{Book, BookError};

verus! {

/// The formats a book can be read from.
#[derive(Debug, Clone, Copy, PartialEq, Eq, Structural)]
pub enum InputFormat {
    Epub,
    Markdown,
    Text,
}

/// The format a file extension names, compared without ASCII case:
/// `epub`; `md` or `markdown`; `txt`.
pub open spec fn format_of_extension(ext: Seq<char>) -> Option<InputFormat> {
    let e = ascii_lower_seq(ext);
    if e == seq!['e', 'p', 'u', 'b'] {
        Some(InputFormat::Epub)
    } else if e == seq!['m', 'd'] || e == seq!['m', 'a', 'r', 'k', 'd', 'o', 'w', 'n'] {
        Some(InputFormat::Markdown)
    } else if e == seq!['t', 'x', 't'] {
        Some(InputFormat::Text)
    } else {
        None
    }
}

/// The format a path's extension names, given the extension as
/// `Path::extension` gives it (`None` for a path without one).
pub open spec fn extension_format(ext: Option<Seq<char>>) -> Option<InputFormat> {
    match ext {
        Some(e) => format_of_extension(e),
        None => None,
    }
}

/// What reading a book from a file whose extension is `ext` gives: the
/// unsupported-input error for an extension that names no format, else
/// what that format's parser makes of the bytes.
pub open spec fn book_from_extension(
    r: Result<Book, BookError>,
    ext: Option<Seq<char>>,
    bytes: Seq<u8>,
    o: ParseOptions,
) -> bool {
    match extension_format(ext) {
        None => r matches Err(e) && e is UnsupportedInput,
        Some(f) => book_parsed(r, f, bytes, o),
    }
}

/// Calls `Path::extension` and converts it with `OsStr::to_string_lossy`.
/// What it returns depends on the platform's path separators, so nothing is
/// claimed of it.
#[verifier::external_body]
fn path_extension(path: &Path) -> (r: Option<String>) {
    path.extension().map(|e| e.to_string_lossy().into_owned())
}

/// Calls `String::from_utf8`, which accepts exactly the valid UTF-8 byte
/// sequences and then holds the characters they encode.
#[verifier::external_body]
fn decode_utf8_bytes(bytes: Vec<u8>) -> (r: Option<String>)
    ensures
        r is Some <==> valid_utf8(bytes@),
        r matches Some(s) ==> s@ == decode_utf8(bytes@),
{
    String::from_utf8(bytes).ok()
}

impl InputFormat {
    /// The format an extension (without its dot) names.
    pub fn from_extension(ext: &str) -> (r: Option<Self>)
        ensures
            r == format_of_extension(ext@),
    {
        let v = chars_of(ext);
        let e = ascii_lower_chars(v.as_slice());
        let epub = vec!['e', 'p', 'u', 'b'];
        let md = vec!['m', 'd'];
        let markdown = vec!['m', 'a', 'r', 'k', 'd', 'o', 'w', 'n'];
        let txt = vec!['t', 'x', 't'];
        assert(epub@ == seq!['e', 'p', 'u', 'b']);
        assert(md@ == seq!['m', 'd']);
        assert(markdown@ == seq!['m', 'a', 'r', 'k', 'd', 'o', 'w', 'n']);
        assert(txt@ == seq!['t', 'x', 't']);
        if chars_equal(e.as_slice(), epub.as_slice()) {
            Some(InputFormat::Epub)
        } else if chars_equal(e.as_slice(), md.as_slice()) || chars_equal(
            e.as_slice(),
            markdown.as_slice(),
        ) {
            Some(InputFormat::Markdown)
        } else if chars_equal(e.as_slice(), txt.as_slice()) {
            Some(InputFormat::Text)
        } else {
            None
        }
    }

    /// The format a path's extension names, given the extension as
    /// `Path::extension` gives it (`None` for a path without one).
    pub fn from_path_extension(ext: Option<&str>) -> (r: Option<Self>)
        ensures
            r == extension_format(opt_str(ext)),
    {
        match ext {
            Some(e) => InputFormat::from_extension(e),
            None => None,
        }
    }

    /// The format `path`'s extension names.
    pub fn from_path(path: &Path) -> (r: Option<Self>)
        ensures
            exists|ext: Option<Seq<char>>| r == extension_format(ext),
    {
        let ext = path_extension(path);
        let r = match &ext {
            Some(e) => InputFormat::from_path_extension(Some(e.as_str())),
            None => InputFormat::from_path_extension(None),
        };
        assert(r == extension_format(opt_string(ext)));
        r
    }

    /// Every declared format has a parser.
    pub fn is_implemented(self) -> (r: bool)
        ensures
            r,
    {
        true
    }
}

/// What reading a book of format `format` from a file of `bytes` gives.
pub open spec fn book_parsed(
    r: Result<Book, BookError>,
    format: InputFormat,
    bytes: Seq<u8>,
    o: ParseOptions,
) -> bool {
    match format {
        InputFormat::Epub => epub_parsed(r, bytes, o),
        InputFormat::Markdown => if valid_utf8(bytes) {
            exists|stem: Option<Seq<char>>|
                book_result(
                    r,
                    #[trigger] markdown_source_book(decode_utf8(bytes), title_from_stem(stem), o),
                )
        } else {
            r matches Err(e) && e is NotUtf8
        },
        InputFormat::Text => if valid_utf8(bytes) {
            exists|stem: Option<Seq<char>>|
                book_result(r, #[trigger] text_book(decode_utf8(bytes), title_from_stem(stem), o))
        } else {
            r matches Err(e) && e is NotUtf8
        },
    }
}

/// Reads the book in `bytes` as `format`.
pub fn parse_book_as(format: InputFormat, path: &Path, bytes: Vec<u8>, options: &ParseOptions) -> (r:
    Result<Book, BookError>)
    ensures
        book_parsed(r, format, bytes@, *options),
{
    match format {
        InputFormat::Epub => parse_epub(path, bytes, options),
        InputFormat::Markdown => match decode_utf8_bytes(bytes) {
            Some(raw) => parse_markdown(path, raw.as_str(), options),
            None => Err(BookError::NotUtf8(display_path(path))),
        },
        InputFormat::Text => match decode_utf8_bytes(bytes) {
            Some(raw) => parse_text(path, raw.as_str(), options),
            None => Err(BookError::NotUtf8(display_path(path))),
        },
    }
}

/// Reads the book in `bytes` from a file whose extension is `ext`.
pub fn parse_book_with_extension(
    ext: Option<&str>,
    path: &Path,
    bytes: Vec<u8>,
    options: &ParseOptions,
) -> (r: Result<Book, BookError>)
    ensures
        book_from_extension(r, opt_str(ext), bytes@, *options),
{
    match InputFormat::from_path_extension(ext) {
        Some(f) => parse_book_as(f, path, bytes, options),
        None => Err(BookError::UnsupportedInput(display_path(path))),
    }
}

/// Reads the book in `bytes`, in the format `path`'s extension names.
pub fn parse_book(path: &Path, bytes: Vec<u8>, options: &ParseOptions) -> (r: Result<
    Book,
    BookError,
>)
    ensures
        exists|ext: Option<Seq<char>>| book_from_extension(r, ext, bytes@, *options),
{
    let ext = path_extension(path);
    let r = match &ext {
        Some(e) => parse_book_with_extension(Some(e.as_str()), path, bytes, options),
        None => parse_book_with_extension(None, path, bytes, options),
    };
    assert(book_from_extension(r, opt_string(ext), bytes@, *options));
    r
}

/// Whether a file whose extension is `ext` is a supported input: an error
/// exactly when the extension names no format.
pub fn validate_extension(ext: Option<&str>, path: &Path) -> (r: Result<(), BookError>)
    ensures
        r is Ok <==> extension_format(opt_str(ext)) is Some,
        r matches Err(e) ==> e is UnsupportedInput,
{
    match InputFormat::from_path_extension(ext) {
        Some(fmt) => if fmt.is_implemented() {
            Ok(())
        } else {
            Err(BookError::UnsupportedInput(display_path(path)))
        },
        None => Err(BookError::UnsupportedInput(display_path(path))),
    }
}

/// Whether `path` names a supported input.
pub fn validate_requested_input(path: &Path) -> (r: Result<(), BookError>)
    ensures
        exists|ext: Option<Seq<char>>| (r is Ok <==> extension_format(ext) is Some),
        r matches Err(e) ==> e is UnsupportedInput,
{
    let ext = path_extension(path);
    let r = match &ext {
        Some(e) => validate_extension(Some(e.as_str()), path),
        None => validate_extension(None, path),
    };
    assert(r is Ok <==> extension_format(opt_string(ext)) is Some);
    r
}

/// Whether a file whose extension is `ext` is a supported input.
pub fn is_enabled_extension(ext: Option<&str>) -> (r: bool)
    ensures
        r == extension_format(opt_str(ext)) is Some,
{
    match InputFormat::from_path_extension(ext) {
        Some(fmt) => fmt.is_implemented(),
        None => false,
    }
}

/// Whether `path` names a supported input.
pub fn is_enabled_input(path: &Path) -> (r: bool)
    ensures
        exists|ext: Option<Seq<char>>| r == extension_format(ext) is Some,
{
    let ext = path_extension(path);
    let r = match &ext {
        Some(e) => is_enabled_extension(Some(e.as_str())),
        None => is_enabled_extension(None),
    };
    assert(r == extension_format(opt_string(ext)) is Some);
    r
}

/// `.epub`, `.md`, `.markdown`, `.txt`
pub open spec fn enabled_extensions() -> Seq<Seq<char>> {
    seq![".epub"@, ".md"@, ".markdown"@, ".txt"@]
}

/// The supported extensions, comma separated.
pub fn supported_extensions_summary() -> (r: String)
    ensures
        r@ == join(enabled_extensions(), ", "@),
{
    let exts = vec![
        String::from_str(".epub"),
        String::from_str(".md"),
        String::from_str(".markdown"),
        String::from_str(".txt"),
    ];
    assert(crate::search::strings_view(exts@) =~= enabled_extensions());
    join_strings(&exts, ", ")
}

} // verus!
