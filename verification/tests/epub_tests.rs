use epub_reader::epub::{
    book_from_epub_contents, extract_chapter_title, extract_text_blocks, looks_like_navigation_entry,
    parse_epub, EpubContents,
};
use epub_reader::types::BookError;
use std::path::Path;
use epub_reader::parse_utils::ParseOptions;

#[test]
fn extracts_multiple_block_types() {
    let html = r#"<html><body>
            <h1>Chapter 1</h1>
            <p>"Short dialogue."</p>
            <blockquote>The grave was silent.</blockquote>
            <ul><li>The throne room was cold.</li></ul>
            </body></html>"#;

    let blocks = extract_text_blocks(html, &ParseOptions::default());
    assert_eq!(blocks.len(), 3);
    assert_eq!(blocks[0], "\"Short dialogue.\"");
}

#[test]
fn skips_navigation_like_pages() {
    let html = r#"<html><body><ul>
            <li>Chapter 1</li>
            <li>Chapter 2</li>
            <li>Chapter 3</li>
            <li>Chapter 4</li>
            </ul></body></html>"#;

    let blocks = extract_text_blocks(html, &ParseOptions::default());
    assert!(blocks.is_empty());
}

#[test]
fn extracts_heading_title() {
    let title = extract_chapter_title("<html><body><h2>Prologue</h2></body></html>");
    assert_eq!(title.as_deref(), Some("Prologue"));
}

#[test]
fn divs_are_read_when_there_are_no_paragraphs() {
    let html = "<html><body><div>The night was long and cold.</div><div>Too short.</div></body></html>";
    let blocks = extract_text_blocks(html, &ParseOptions::default());
    assert_eq!(blocks, vec!["The night was long and cold.".to_string()]);
}

#[test]
fn page_furniture_and_nested_blocks_are_skipped() {
    let html = "<html><body><nav><div><p>Skip me now please.</p></div></nav><blockquote><p>Inner text.</p></blockquote></body></html>";
    let blocks = extract_text_blocks(html, &ParseOptions::default());
    assert_eq!(blocks, vec!["Inner text.".to_string()]);
}

#[test]
fn only_ancestors_above_the_parent_count_as_furniture() {
    let html = "<html><body><div><nav><p>Kept in the page.</p></nav></div></body></html>";
    let blocks = extract_text_blocks(html, &ParseOptions::default());
    assert_eq!(blocks, vec!["Kept in the page.".to_string()]);
}

#[test]
fn contents_is_no_chapter_title() {
    let title = extract_chapter_title("<html><head><title>Contents</title></head><body><h3>Real   Title</h3></body></html>");
    assert_eq!(title.as_deref(), Some("Real Title"));
    assert_eq!(extract_chapter_title("<p>none</p>"), None);
}

#[test]
fn epub_pages_become_numbered_chapters() {
    let contents = EpubContents {
        title: Some("  ".to_string()),
        pages: vec![
            Some("<h1>One</h1><p>First page text.</p>".to_string()),
            None,
            Some("<p>42</p>".to_string()),
            Some("<h2>Two</h2><p>Second page text.</p><p>More.</p>".to_string()),
        ],
    };
    let book = book_from_epub_contents(&contents, "My Epub", &ParseOptions::default());
    assert_eq!(book.title, "My Epub");
    assert_eq!(book.slug, "my-epub");
    assert_eq!(book.chapters.len(), 2);
    assert_eq!(book.chapters[0].title.as_deref(), Some("One"));
    assert_eq!(book.chapters[1].index, 1);
    assert_eq!(book.chapters[1].paragraphs[1].id, "my-epub-ch001-p0001");
}

#[test]
fn navigation_entries_are_headings_or_contents() {
    let options = ParseOptions::default();
    assert!(looks_like_navigation_entry("Chapter 3", &options));
    assert!(looks_like_navigation_entry("  CONTENTS ", &options));
    assert!(!looks_like_navigation_entry("She walked into the hall.", &options));
}

fn crc32(data: &[u8]) -> u32 {
    let mut crc: u32 = 0xffff_ffff;
    for &b in data {
        crc ^= b as u32;
        for _ in 0..8 {
            let mask = (!(crc & 1)).wrapping_add(1);
            crc = (crc >> 1) ^ (0xedb8_8320 & mask);
        }
    }
    !crc
}

/// A zip archive with the files stored uncompressed.
fn stored_zip(files: &[(&str, &[u8])]) -> Vec<u8> {
    let mut out = Vec::new();
    let mut central = Vec::new();
    for (name, data) in files {
        let offset = out.len() as u32;
        let crc = crc32(data);
        let mut header = Vec::new();
        header.extend_from_slice(&0x0403_4b50u32.to_le_bytes());
        header.extend_from_slice(&[20, 0, 0, 0, 0, 0, 0, 0, 0, 0]);
        header.extend_from_slice(&crc.to_le_bytes());
        header.extend_from_slice(&(data.len() as u32).to_le_bytes());
        header.extend_from_slice(&(data.len() as u32).to_le_bytes());
        header.extend_from_slice(&(name.len() as u16).to_le_bytes());
        header.extend_from_slice(&0u16.to_le_bytes());
        out.extend_from_slice(&header);
        out.extend_from_slice(name.as_bytes());
        out.extend_from_slice(data);
        central.extend_from_slice(&0x0201_4b50u32.to_le_bytes());
        central.extend_from_slice(&[20, 0, 20, 0, 0, 0, 0, 0, 0, 0, 0, 0]);
        central.extend_from_slice(&crc.to_le_bytes());
        central.extend_from_slice(&(data.len() as u32).to_le_bytes());
        central.extend_from_slice(&(data.len() as u32).to_le_bytes());
        central.extend_from_slice(&(name.len() as u16).to_le_bytes());
        central.extend_from_slice(&[0, 0, 0, 0, 0, 0, 0, 0, 0, 0, 0, 0]);
        central.extend_from_slice(&offset.to_le_bytes());
        central.extend_from_slice(name.as_bytes());
    }
    let central_offset = out.len() as u32;
    out.extend_from_slice(&central);
    out.extend_from_slice(&0x0605_4b50u32.to_le_bytes());
    out.extend_from_slice(&[0, 0, 0, 0]);
    out.extend_from_slice(&(files.len() as u16).to_le_bytes());
    out.extend_from_slice(&(files.len() as u16).to_le_bytes());
    out.extend_from_slice(&(central.len() as u32).to_le_bytes());
    out.extend_from_slice(&central_offset.to_le_bytes());
    out.extend_from_slice(&[0, 0]);
    out
}

const OPF: &str = r#"<?xml version="1.0" encoding="UTF-8"?>
<package xmlns="http://www.idpf.org/2007/opf" version="2.0" unique-identifier="id">
<metadata xmlns:dc="http://purl.org/dc/elements/1.1/"><dc:title>Tiny Tale</dc:title></metadata>
<manifest><item id="c1" href="c1.xhtml" media-type="application/xhtml+xml"/></manifest>
<spine><itemref idref="c1"/></spine>
</package>"#;

const PAGE: &str = "<html><body><h1>Opening</h1><p>The first page holds one sentence.</p></body></html>";

fn container(path: &str) -> String {
    format!(
        r#"<?xml version="1.0"?><container version="1.0" xmlns="urn:oasis:names:tc:opendocument:xmlns:container"><rootfiles><rootfile full-path="{}" media-type="application/oebps-package+xml"/></rootfiles></container>"#,
        path
    )
}

#[test]
fn a_small_archive_is_read() {
    let c = container("OEBPS/content.opf");
    let bytes = stored_zip(&[
        ("mimetype", b"application/epub+zip"),
        ("META-INF/container.xml", c.as_bytes()),
        ("OEBPS/content.opf", OPF.as_bytes()),
        ("OEBPS/c1.xhtml", PAGE.as_bytes()),
    ]);
    let book = parse_epub(Path::new("tiny.epub"), bytes, &ParseOptions::default()).unwrap();
    assert_eq!(book.title, "Tiny Tale");
    assert_eq!(book.slug, "tiny-tale");
    assert_eq!(book.chapters.len(), 1);
    assert_eq!(book.chapters[0].title.as_deref(), Some("Opening"));
    assert_eq!(book.chapters[0].paragraphs[0].text, "The first page holds one sentence.");
}

#[test]
fn an_empty_package_path_is_refused_not_a_panic() {
    let c = container("");
    let bytes = stored_zip(&[
        ("mimetype", b"application/epub+zip"),
        ("META-INF/container.xml", c.as_bytes()),
        ("OEBPS/content.opf", OPF.as_bytes()),
    ]);
    let r = parse_epub(Path::new("bad.epub"), bytes, &ParseOptions::default());
    assert!(matches!(r, Err(BookError::UnreadableEpub(_))));
}

#[test]
fn a_tiny_package_file_is_refused_not_a_panic() {
    let c = container("content.opf");
    let bytes = stored_zip(&[
        ("META-INF/container.xml", c.as_bytes()),
        ("content.opf", b"<p"),
    ]);
    let r = parse_epub(Path::new("bad.epub"), bytes, &ParseOptions::default());
    assert!(matches!(r, Err(BookError::UnreadableEpub(_))));
    let r = parse_epub(Path::new("junk.epub"), b"not a zip".to_vec(), &ParseOptions::default());
    assert!(matches!(r, Err(BookError::UnreadableEpub(_))));
}
