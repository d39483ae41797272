use epub_reader::parse_utils::{
    has_sentence_punctuation, is_substantive_text, looks_like_book_title_candidate,
    looks_like_chapter_heading, looks_like_sentence, strip_markdown_heading_prefix, BookBuilder,
    ParseOptions,
};
use epub_reader::text::normalize_text;
use epub_reader::types::BookError;
use std::path::Path;

#[test]
fn keeps_short_dialogue_as_substantive() {
    let options = ParseOptions::default();
    assert!(is_substantive_text("\"Why?\"", &options));
    assert!(is_substantive_text("Yes.", &options));
}

#[test]
fn rejects_page_numbers_and_banner_lines() {
    let options = ParseOptions::default();
    assert!(!is_substantive_text("42", &options));
    assert!(!is_substantive_text("CHAPTER", &options));
}

#[test]
fn detects_common_heading_patterns() {
    let options = ParseOptions::default();
    assert!(looks_like_chapter_heading("Chapter 12 - The Tomb", &options));
    assert!(looks_like_chapter_heading("第十二章 王都", &options));
    assert!(looks_like_chapter_heading("PROLOGUE", &options));
    assert!(!looks_like_chapter_heading("He looked at her.", &options));
}

#[test]
fn strips_markdown_heading_prefixes() {
    assert_eq!(strip_markdown_heading_prefix("## Chapter 1 ##"), "Chapter 1");
}

#[test]
fn title_candidates_are_short_and_not_sentences() {
    let options = ParseOptions::default();
    assert!(looks_like_book_title_candidate("Overlord Volume 1", &options));
    assert!(!looks_like_book_title_candidate(
        "He stepped into the throne room.",
        &options
    ));
    assert!(has_sentence_punctuation("Wait!"));
    assert_eq!(normalize_text(" a \n  b\tc "), "a b c");
}

#[test]
fn title_limit_is_configurable() {
    let options = ParseOptions {
        title_max_words: 2,
        ..ParseOptions::default()
    };
    assert!(!looks_like_book_title_candidate("Overlord Volume 1", &options));
}

#[test]
fn default_options_match_the_documented_defaults() {
    let o = ParseOptions::default();
    assert_eq!(o.min_paragraph_chars, 2);
    assert_eq!(o.title_max_words, 12);
    assert_eq!(o.short_heading_max_words, 8);
    assert!(!o.txt_hard_linebreaks);
    assert!(o.txt_split_on_sentence_end);
}

#[test]
fn summary_lists_every_rule() {
    assert_eq!(
        ParseOptions::default().summary(),
        "min-chars=2 · title<= 12 words · short-heading<= 8 words · txt-hard-linebreaks=false · txt-sentence-split=true"
    );
}

#[test]
fn normalizing_twice_changes_nothing() {
    let once = normalize_text("\t Hello \u{3000}  wide\n\nworld  ");
    assert_eq!(once, "Hello wide world");
    assert_eq!(normalize_text(&once), once);
}

#[test]
fn short_texts_need_punctuation_or_length() {
    let options = ParseOptions::default();
    assert!(!is_substantive_text("a", &options));
    assert!(is_substantive_text("a.", &options));
    assert!(!is_substantive_text("---", &options));
    assert!(!is_substantive_text("   ", &options));
    assert!(!is_substantive_text("Page 7", &options));
    assert!(!is_substantive_text("xiv", &options));
    assert!(is_substantive_text("The hall was quiet", &options));
}

#[test]
fn uppercase_banners_need_few_words() {
    let options = ParseOptions::default();
    assert!(!is_substantive_text("THE END OF ALL", &options));
    assert!(is_substantive_text("THE END OF ALL THINGS", &options));
}

#[test]
fn headings_by_roman_numerals_and_short_capitals() {
    let options = ParseOptions::default();
    assert!(looks_like_chapter_heading("Book IV: Return", &options));
    assert!(looks_like_chapter_heading("# THE DARK WOOD", &options));
    assert!(!looks_like_chapter_heading("", &options));
    let narrow = ParseOptions {
        short_heading_max_words: 2,
        ..ParseOptions::default()
    };
    assert!(!looks_like_chapter_heading("THE DARK WOOD", &narrow));
}

#[test]
fn heading_prefix_needs_one_to_six_marks_and_text() {
    assert_eq!(strip_markdown_heading_prefix("  # Title  "), "Title");
    assert_eq!(strip_markdown_heading_prefix("####### Seven"), "####### Seven");
    assert_eq!(strip_markdown_heading_prefix("###"), "###");
    assert_eq!(strip_markdown_heading_prefix("plain"), "plain");
}

#[test]
fn sentences_are_long_or_punctuated() {
    assert!(looks_like_sentence("one two three four five six seven eight"));
    assert!(looks_like_sentence("Stop…"));
    assert!(!looks_like_sentence("one two three"));
}

#[test]
fn builder_numbers_chapters_and_paragraphs() {
    let mut b = BookBuilder::new("fallback", ParseOptions::default());
    assert!(b.is_pristine());
    b.set_book_title_if_absent("  My   Book ");
    b.set_book_title_if_absent("Ignored");
    assert!(!b.is_pristine());
    b.push_chapter_title("One");
    b.push_paragraph("First   paragraph.");
    b.push_paragraph("42");
    b.push_chapter_title("Empty");
    b.push_chapter_title("Two");
    b.push_paragraph("Second paragraph.");
    let book = b.finish(Path::new("x.txt")).unwrap();
    assert_eq!(book.title, "My Book");
    assert_eq!(book.slug, "my-book");
    assert_eq!(book.chapters.len(), 2);
    assert_eq!(book.chapters[0].index, 0);
    assert_eq!(book.chapters[0].title.as_deref(), Some("One"));
    assert_eq!(book.chapters[0].paragraphs[0].id, "my-book-ch000-p0000");
    assert_eq!(book.chapters[0].paragraphs[0].text, "First paragraph.");
    assert_eq!(book.chapters[0].paragraphs.len(), 1);
    assert_eq!(book.chapters[1].index, 1);
    assert_eq!(book.chapters[1].title.as_deref(), Some("Two"));
    assert_eq!(book.chapters[1].paragraphs[0].id, "my-book-ch001-p0000");
}

#[test]
fn builder_without_paragraphs_is_an_error() {
    let mut b = BookBuilder::new("fallback", ParseOptions::default());
    b.push_chapter_title("Lonely");
    match b.finish(Path::new("x.txt")) {
        Err(BookError::NoReadableParagraphs(p)) => assert_eq!(p, "x.txt"),
        other => panic!("unexpected {:?}", other),
    }
}

#[test]
fn builder_falls_back_to_book_slug() {
    let mut b = BookBuilder::new("!!!", ParseOptions::default());
    b.push_paragraph("Some text here.");
    let book = b.finish(Path::new("x.txt")).unwrap();
    assert_eq!(book.title, "!!!");
    assert_eq!(book.slug, "book");
    assert_eq!(book.chapters[0].paragraphs[0].id, "book-ch000-p0000");
}
