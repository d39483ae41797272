use epub_reader::parse_utils::ParseOptions;
use epub_reader::text_parser::{parse_text_str, segment_text_blocks, TextBlock};
use std::path::Path;

#[test]
fn segments_titles_headings_and_wrapped_paragraphs() {
    let raw = r#"Overlord Volume 1

Chapter 1
The first line
continues here.

The next paragraph ends here.
Another standalone paragraph.
"#;

    let blocks = segment_text_blocks(raw, &ParseOptions::default());
    assert_eq!(
        blocks[0],
        TextBlock::Paragraph("Overlord Volume 1".to_string())
    );
    assert_eq!(blocks[1], TextBlock::Heading("Chapter 1".to_string()));
    assert_eq!(
        blocks[2],
        TextBlock::Paragraph("The first line continues here.".to_string())
    );
}

#[test]
fn parses_title_and_chapters() {
    let raw = r#"Overlord Volume 1

Chapter 1

The first paragraph.

Chapter 2

The second paragraph.
"#;

    let book =
        parse_text_str(raw, Path::new("book.txt"), "book", &ParseOptions::default()).unwrap();
    assert_eq!(book.title, "Overlord Volume 1");
    assert_eq!(book.chapters.len(), 2);
    assert_eq!(book.chapters[0].title.as_deref(), Some("Chapter 1"));
    assert_eq!(book.chapters[1].title.as_deref(), Some("Chapter 2"));
}

#[test]
fn txt_hard_linebreaks_are_configurable() {
    let raw = "Chapter 1\nOne line\nTwo line";
    let options = ParseOptions {
        txt_hard_linebreaks: true,
        txt_split_on_sentence_end: false,
        ..ParseOptions::default()
    };

    let blocks = segment_text_blocks(raw, &options);
    assert_eq!(blocks[0], TextBlock::Heading("Chapter 1".to_string()));
    assert_eq!(blocks[1], TextBlock::Paragraph("One line".to_string()));
    assert_eq!(blocks[2], TextBlock::Paragraph("Two line".to_string()));
}

#[test]
fn scene_breaks_and_indents_end_paragraphs() {
    let raw = "First part\ncontinues\n* * *\nAfter the break\n    Indented start\nand more";
    let options = ParseOptions {
        txt_split_on_sentence_end: false,
        ..ParseOptions::default()
    };
    let blocks = segment_text_blocks(raw, &options);
    assert_eq!(
        blocks,
        vec![
            TextBlock::Paragraph("First part continues".to_string()),
            TextBlock::Paragraph("After the break".to_string()),
            TextBlock::Paragraph("Indented start and more".to_string()),
        ]
    );
}

#[test]
fn sentence_ends_split_unless_disabled() {
    let raw = "He left.\nShe stayed";
    let split = segment_text_blocks(raw, &ParseOptions::default());
    assert_eq!(split.len(), 2);
    let options = ParseOptions {
        txt_split_on_sentence_end: false,
        ..ParseOptions::default()
    };
    let joined = segment_text_blocks(raw, &options);
    assert_eq!(joined, vec![TextBlock::Paragraph("He left. She stayed".to_string())]);
}

#[test]
fn carriage_returns_are_line_breaks() {
    let raw = "Chapter 1\r\nOne.\rTwo.";
    let blocks = segment_text_blocks(raw, &ParseOptions::default());
    assert_eq!(
        blocks,
        vec![
            TextBlock::Heading("Chapter 1".to_string()),
            TextBlock::Paragraph("One.".to_string()),
            TextBlock::Paragraph("Two.".to_string()),
        ]
    );
}

#[test]
fn markdown_style_heading_in_text() {
    let blocks = segment_text_blocks("## Part Two ##\nBody text", &ParseOptions::default());
    assert_eq!(blocks[0], TextBlock::Heading("Part Two".to_string()));
}

#[test]
fn text_without_paragraphs_is_an_error() {
    let r = parse_text_str("Chapter 1\n\n", Path::new("e.txt"), "e", &ParseOptions::default());
    assert!(r.is_err());
}

#[test]
fn fallback_title_when_first_block_is_a_sentence() {
    let raw = "It began with a long sentence that is clearly not a title.\n";
    let book = parse_text_str(raw, Path::new("f.txt"), "Fallback", &ParseOptions::default())
        .unwrap();
    assert_eq!(book.title, "Fallback");
    assert_eq!(book.slug, "fallback");
    assert_eq!(book.chapters[0].title, None);
    assert_eq!(book.chapters[0].paragraphs[0].id, "fallback-ch000-p0000");
}
