use epub_reader::markdown::{book_from_markdown_events, parse_markdown_str, split_frontmatter, MdEvent, MdTag};
use epub_reader::parse_utils::ParseOptions;
use std::path::Path;

#[test]
fn parses_frontmatter_title_and_headings() {
    let raw = r#"---
title: Overlord Volume 1
---

## Prologue

The first paragraph.

- One list item
- Another list item

## Chapter 1

Second paragraph.
"#;

    let book = parse_markdown_str(
        raw,
        Path::new("book.md"),
        "book",
        None,
        &ParseOptions::default(),
    )
    .unwrap();
    assert_eq!(book.title, "Overlord Volume 1");
    assert_eq!(book.chapters.len(), 2);
    assert_eq!(book.chapters[0].title.as_deref(), Some("Prologue"));
    assert_eq!(book.chapters[0].paragraphs.len(), 3);
    assert_eq!(book.chapters[1].title.as_deref(), Some("Chapter 1"));
}

#[test]
fn uses_first_h1_as_book_title() {
    let raw = r#"# Custom Title

## Chapter 1

Hello there.
"#;

    let book = parse_markdown_str(
        raw,
        Path::new("book.md"),
        "book",
        None,
        &ParseOptions::default(),
    )
    .unwrap();
    assert_eq!(book.title, "Custom Title");
    assert_eq!(book.chapters[0].title.as_deref(), Some("Chapter 1"));
}

#[test]
fn frontmatter_title_is_unquoted_and_case_insensitive() {
    let (title, body) = split_frontmatter("\u{feff}---\nauthor: x\nTITLE: \"Quoted\"\n---\nBody\n");
    assert_eq!(title.as_deref(), Some("Quoted"));
    assert_eq!(body, "Body\n");
    let (none, same) = split_frontmatter("---\nno end\n");
    assert_eq!(none, None);
    assert_eq!(same, "---\nno end\n");
    let (empty, _) = split_frontmatter("---\ntitle: ''\n---\nx");
    assert_eq!(empty, None);
}

#[test]
fn events_feed_the_builder() {
    let events = vec![
        MdEvent::Start(MdTag::Heading(1)),
        MdEvent::Text("Chapter 3".to_string()),
        MdEvent::End,
        MdEvent::Start(MdTag::Paragraph),
        MdEvent::Text("Line one".to_string()),
        MdEvent::Break,
        MdEvent::Text("line two.".to_string()),
        MdEvent::End,
        MdEvent::Start(MdTag::Heading(4)),
        MdEvent::Text("Deep heading text".to_string()),
        MdEvent::End,
    ];
    let book = book_from_markdown_events(
        &events,
        Path::new("n.md"),
        "Notes",
        None,
        &ParseOptions::default(),
    )
    .unwrap();
    assert_eq!(book.title, "Notes");
    assert_eq!(book.chapters[0].title.as_deref(), Some("Chapter 3"));
    assert_eq!(book.chapters[0].paragraphs[0].text, "Line one line two.");
    assert_eq!(book.chapters[0].paragraphs[1].text, "Deep heading text");
}
