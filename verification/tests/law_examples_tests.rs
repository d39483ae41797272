use epub_reader::batching::{
    build_translation_batches, effective_text_chars, PendingParagraph, BATCH_HARD_MAX_CHARS,
    BATCH_MAX_ITEMS, SINGLE_PARAGRAPH_CHARS,
};
use epub_reader::parse_utils::{BookBuilder, ParseOptions};
use epub_reader::parser::InputFormat;
use epub_reader::pipeline::pending_paragraphs;
use epub_reader::text::normalize_text;
use epub_reader::text_parser::{segment_text_blocks, TextBlock};
use std::collections::HashSet;
use std::path::Path;

#[test]
fn normalizing_is_idempotent_on_examples() {
    for s in ["  a \t b\n\nc  ", "", "   ", "one", "x\u{3000}y"] {
        let once = normalize_text(s);
        assert_eq!(normalize_text(&once), once);
    }
    assert_eq!(normalize_text("  a \t b\n\nc  "), "a b c");
}

#[test]
fn extension_case_does_not_matter() {
    for (upper, lower) in [("EPUB", "epub"), ("Md", "md"), ("MARKDOWN", "markdown"), ("TXT", "txt"), ("Pdf", "pdf")] {
        assert_eq!(InputFormat::from_extension(upper), InputFormat::from_extension(lower));
    }
    assert_eq!(InputFormat::from_extension("EPUB"), Some(InputFormat::Epub));
    assert_eq!(InputFormat::from_extension("pdf"), None);
}

#[test]
fn finished_books_have_unique_paragraph_ids() {
    let mut b = BookBuilder::new("Ids", ParseOptions::default());
    b.push_paragraph("Before any chapter begins here.");
    b.push_chapter_title("One");
    b.push_paragraph("First paragraph of one.");
    b.push_paragraph("Second paragraph of one.");
    b.push_chapter_title("Two");
    b.push_paragraph("Only paragraph of two.");
    let book = b.finish(Path::new("ids.txt")).unwrap();
    let mut seen = HashSet::new();
    for (ci, c) in book.chapters.iter().enumerate() {
        assert_eq!(c.index, ci);
        for (pi, p) in c.paragraphs.iter().enumerate() {
            assert_eq!(p.id, format!("{}-ch{:03}-p{:04}", book.slug, ci, pi));
            assert!(seen.insert(p.id.clone()));
        }
    }
    assert_eq!(seen.len(), 4);
}

#[test]
fn batches_keep_order_and_limits() {
    let sizes = [100, 2_900, 2_000, 2_500, 2_400, 50, 60, 70, 80, 90, 100, 110, 120, 130, 140];
    let pending: Vec<PendingParagraph> = sizes
        .iter()
        .enumerate()
        .map(|(i, n)| PendingParagraph {
            para_id: format!("p{}", i),
            para_text: "w".repeat(*n),
        })
        .collect();
    let batches = build_translation_batches(pending.clone());
    let flat: Vec<String> = batches
        .iter()
        .flat_map(|b| b.paragraphs.iter().map(|p| p.para_id.clone()))
        .collect();
    let ids: Vec<String> = pending.iter().map(|p| p.para_id.clone()).collect();
    assert_eq!(flat, ids);
    for batch in &batches {
        let n = batch.paragraphs.len();
        assert!(n >= 1 && n <= BATCH_MAX_ITEMS);
        if n > 1 {
            let total: usize = batch.paragraphs.iter().map(|p| effective_text_chars(&p.para_text)).sum();
            assert!(total <= BATCH_HARD_MAX_CHARS);
            assert!(batch
                .paragraphs
                .iter()
                .all(|p| effective_text_chars(&p.para_text) <= SINGLE_PARAGRAPH_CHARS));
        }
    }
    assert_eq!(batches[1].paragraphs.len(), 1);
}

#[test]
fn resumed_runs_skip_done_paragraphs() {
    let mut b = BookBuilder::new("Resume", ParseOptions::default());
    b.push_paragraph("Alpha sentence here.");
    b.push_paragraph("Beta sentence here.");
    b.push_paragraph("Gamma sentence here.");
    let book = b.finish(Path::new("resume.md")).unwrap();
    let done = vec![book.chapters[0].paragraphs[1].id.clone()];
    let pending = pending_paragraphs(&book, &done);
    assert_eq!(pending.len(), 2);
    assert!(pending.iter().all(|p| !done.contains(&p.para_id)));
}

#[test]
fn hard_linebreaks_never_join_lines() {
    let options = ParseOptions {
        txt_hard_linebreaks: true,
        ..ParseOptions::default()
    };
    let raw = "first line of the text\nsecond line follows\n   third line indented\n";
    let lines: Vec<&str> = raw.lines().map(|l| l.trim()).collect();
    for block in segment_text_blocks(raw, &options) {
        if let TextBlock::Paragraph(t) = block {
            assert!(lines.contains(&t.as_str()));
        }
    }
}

#[test]
fn normalizing_keeps_words_with_single_spaces() {
    let raw = "\t one  two\n\nthree\u{3000} ";
    let n = normalize_text(raw);
    assert_eq!(n, "one two three");
    assert_eq!(n.split_whitespace().collect::<Vec<_>>(), raw.split_whitespace().collect::<Vec<_>>());
}

#[test]
fn builder_is_pristine_until_something_is_kept() {
    let mut b = BookBuilder::new("Fallback", ParseOptions::default());
    assert!(b.is_pristine());
    b.set_book_title_if_absent("   ");
    b.push_chapter_title("\n");
    b.push_paragraph("42");
    assert!(b.is_pristine());
    b.push_paragraph("A real sentence.");
    assert!(!b.is_pristine());
}

#[test]
fn finishing_keeps_accepted_paragraphs_in_order() {
    let mut b = BookBuilder::new("Fallback Title", ParseOptions::default());
    b.push_paragraph("First  kept\tparagraph.");
    b.push_paragraph("42");
    b.set_book_title_if_absent("  ");
    b.set_book_title_if_absent(" The   Real Title ");
    b.set_book_title_if_absent("Later Title");
    b.push_chapter_title("Two");
    b.push_paragraph("Second kept paragraph.");
    let book = b.finish(Path::new("x.txt")).unwrap();
    let texts: Vec<String> = book
        .chapters
        .iter()
        .flat_map(|c| c.paragraphs.iter().map(|p| p.text.clone()))
        .collect();
    assert_eq!(texts, vec!["First kept paragraph.", "Second kept paragraph."]);
    assert_eq!(book.title, "The Real Title");
    assert_eq!(book.slug, "the-real-title");
}

#[test]
fn finishing_without_paragraphs_fails_and_slugs_are_never_empty() {
    let mut b = BookBuilder::new("Fallback", ParseOptions::default());
    b.set_book_title_if_absent("Title Only");
    b.push_chapter_title("Chapter");
    assert!(b.finish(Path::new("empty.txt")).is_err());
    let mut c = BookBuilder::new("!!!", ParseOptions::default());
    c.set_book_title_if_absent("???");
    c.push_paragraph("Some words here.");
    let book = c.finish(Path::new("odd.txt")).unwrap();
    assert_eq!(book.slug, "book");
}
