use epub_reader::parser::{
    is_enabled_extension, is_enabled_input, parse_book, parse_book_with_extension,
    supported_extensions_summary, validate_extension, validate_requested_input, InputFormat,
};
use epub_reader::parse_utils::{default_title_from_path, ParseOptions};
use epub_reader::types::BookError;
use std::path::Path;

#[test]
fn classifies_known_extensions_case_insensitively() {
    assert_eq!(
        InputFormat::from_path(Path::new("book.EPUB")),
        Some(InputFormat::Epub)
    );
    assert_eq!(
        InputFormat::from_path(Path::new("notes.MD")),
        Some(InputFormat::Markdown)
    );
    assert_eq!(
        InputFormat::from_path(Path::new("chapter.Txt")),
        Some(InputFormat::Text)
    );
}

#[test]
fn all_declared_formats_are_enabled() {
    assert!(is_enabled_input(Path::new("book.epub")));
    assert!(is_enabled_input(Path::new("notes.md")));
    assert!(is_enabled_input(Path::new("chapter.txt")));
}

#[test]
fn other_extensions_are_refused() {
    assert_eq!(InputFormat::from_path(Path::new("notes.pdf")), None);
    assert_eq!(InputFormat::from_path(Path::new("README")), None);
    assert_eq!(
        InputFormat::from_path(Path::new("long.MarkDown")),
        Some(InputFormat::Markdown)
    );
    assert!(!is_enabled_input(Path::new("image.png")));
    assert!(validate_requested_input(Path::new("a.md")).is_ok());
    match validate_requested_input(Path::new("a.doc")) {
        Err(BookError::UnsupportedInput(p)) => assert_eq!(p, "a.doc"),
        other => panic!("unexpected {:?}", other),
    }
}

#[test]
fn extensions_summary_lists_the_formats() {
    assert_eq!(supported_extensions_summary(), ".epub, .md, .markdown, .txt");
}

#[test]
fn default_title_comes_from_the_file_stem() {
    assert_eq!(default_title_from_path(Path::new("dir/My Novel.txt")), "My Novel");
    assert_eq!(default_title_from_path(Path::new("/")), "Untitled");
}

#[test]
fn parse_book_dispatches_on_the_extension() {
    let options = ParseOptions::default();
    let book = parse_book(
        Path::new("story.txt"),
        b"Chapter 1\n\nIt was a dark night.\n".to_vec(),
        &options,
    )
    .unwrap();
    assert_eq!(book.title, "story");
    assert_eq!(book.chapters[0].paragraphs[0].text, "It was a dark night.");
    match parse_book(Path::new("story.txt"), vec![0xff, 0xfe, 0x41], &options) {
        Err(BookError::NotUtf8(_)) => {}
        other => panic!("unexpected {:?}", other),
    }
    match parse_book(Path::new("story.pdf"), b"x".to_vec(), &options) {
        Err(BookError::UnsupportedInput(_)) => {}
        other => panic!("unexpected {:?}", other),
    }
    match parse_book(Path::new("story.epub"), b"not a zip".to_vec(), &options) {
        Err(BookError::UnreadableEpub(_)) => {}
        other => panic!("unexpected {:?}", other),
    }
}

#[test]
fn path_extensions_pick_formats() {
    assert_eq!(InputFormat::from_path_extension(Some("MarkDown")), Some(InputFormat::Markdown));
    assert_eq!(InputFormat::from_path_extension(Some("txt")), Some(InputFormat::Text));
    assert_eq!(InputFormat::from_path_extension(Some("pdf")), None);
    assert_eq!(InputFormat::from_path_extension(None), None);
}

#[test]
fn extensions_decide_what_is_enabled() {
    assert!(is_enabled_extension(Some("epub")));
    assert!(is_enabled_extension(Some("Markdown")));
    assert!(is_enabled_extension(Some("TXT")));
    assert!(!is_enabled_extension(Some("jpg")));
    assert!(!is_enabled_extension(None));
    let p = Path::new("x");
    assert_eq!(validate_extension(Some("md"), p), Ok(()));
    assert!(matches!(validate_extension(Some("pdf"), p), Err(BookError::UnsupportedInput(_))));
    assert!(matches!(validate_extension(None, p), Err(BookError::UnsupportedInput(_))));
}

#[test]
fn extensions_pick_the_parser() {
    let opts = ParseOptions::default();
    let p = Path::new("story.txt");
    let raw = b"A Title\n\nThe first paragraph of the story.\n".to_vec();
    let book = parse_book_with_extension(Some("txt"), p, raw.clone(), &opts).unwrap();
    assert!(book
        .chapters
        .iter()
        .any(|c| c.paragraphs.iter().any(|q| q.text == "The first paragraph of the story.")));
    assert!(matches!(
        parse_book_with_extension(Some("pdf"), p, raw.clone(), &opts),
        Err(BookError::UnsupportedInput(_))
    ));
    assert!(matches!(
        parse_book_with_extension(None, p, raw.clone(), &opts),
        Err(BookError::UnsupportedInput(_))
    ));
    assert!(matches!(
        parse_book_with_extension(Some("md"), p, vec![0xff, 0xfe, 0x00], &opts),
        Err(BookError::NotUtf8(_))
    ));
}
