use epub_reader::html_gen::{generate_html, patch_html};
use epub_reader::pipeline::{
    abbreviate_para_id, failure_plan, find_translatable_paragraph, next_launch_step,
    pending_paragraphs, rebuild_page, translatable_paragraph_count, validate_settings,
    FailurePlan, LaunchStep, SettingsError,
};
use epub_reader::types::{Book, Chapter, LlmResponse, Paragraph, ParagraphKind};

fn prose(id: &str, text: &str) -> Paragraph {
    Paragraph {
        id: id.to_string(),
        text: text.to_string(),
        kind: ParagraphKind::Text,
    }
}

fn book() -> Book {
    Book {
        slug: "b".to_string(),
        title: "B".to_string(),
        chapters: vec![
            Chapter {
                index: 0,
                title: None,
                paragraphs: vec![
                    prose("b-ch000-p0000", "One."),
                    Paragraph {
                        id: "b-ch000-p0001".to_string(),
                        text: "x = 1".to_string(),
                        kind: ParagraphKind::CodeBlock { language: None },
                    },
                    prose("b-ch000-p0002", "   "),
                ],
            },
            Chapter {
                index: 1,
                title: Some("Two".to_string()),
                paragraphs: vec![
                    prose("b-ch001-p0000", "Two."),
                    prose("b-ch001-p0001", "Three."),
                ],
            },
        ],
    }
}

fn resp(t: &str) -> LlmResponse {
    LlmResponse {
        translation: t.to_string(),
        vocabulary: vec![],
        chunks: vec![],
    }
}

#[test]
fn counts_only_prose_paragraphs() {
    assert_eq!(translatable_paragraph_count(&book()), 4);
}

#[test]
fn pending_skips_done_code_and_blank_paragraphs() {
    let done = vec!["b-ch001-p0000".to_string()];
    let pending = pending_paragraphs(&book(), &done);
    let ids: Vec<&str> = pending.iter().map(|p| p.para_id.as_str()).collect();
    assert_eq!(ids, vec!["b-ch000-p0000", "b-ch001-p0001"]);
    assert_eq!(pending[1].para_text, "Three.");
}

#[test]
fn finds_prose_paragraphs_by_id() {
    let b = book();
    let found = find_translatable_paragraph(&b, "b-ch001-p0001").unwrap();
    assert_eq!(found.text, "Three.");
    assert!(find_translatable_paragraph(&b, "b-ch000-p0001").is_none());
    assert!(find_translatable_paragraph(&b, "missing").is_none());
}

#[test]
fn rebuild_applies_saved_annotations_in_order() {
    let b = book();
    let saved = vec![
        ("b-ch001-p0001".to_string(), resp("三")),
        ("unknown".to_string(), resp("?")),
        ("b-ch000-p0000".to_string(), resp("一")),
    ];
    let rebuilt = rebuild_page(&b, &saved);
    let mut expected = generate_html(&b);
    expected = patch_html(&expected, &b.chapters[1].paragraphs[1], &saved[0].1);
    expected = patch_html(&expected, &b.chapters[0].paragraphs[0], &saved[2].1);
    assert_eq!(rebuilt, expected);
    assert!(rebuilt.contains("<p>三</p>"));
    assert!(rebuilt.contains("<p>一</p>"));
}

#[test]
fn rebuild_without_saved_annotations_is_the_fresh_page() {
    let b = book();
    assert_eq!(rebuild_page(&b, &vec![]), generate_html(&b));
}

#[test]
fn abbreviates_long_ids() {
    assert_eq!(abbreviate_para_id("short-ch000-p0001"), "short-ch000-p0001");
    let long = "a-very-long-book-slug-name-ch012-p0345";
    let short = abbreviate_para_id(long);
    assert_eq!(short, format!("…{}", &long[long.len() - 27..]));
    assert_eq!(short.chars().count(), 28);
    let exactly = "x".repeat(28);
    assert_eq!(abbreviate_para_id(&exactly), exactly);
}

#[test]
fn settings_are_checked_in_order() {
    assert_eq!(validate_settings(2, 2, 12, 8), Ok(()));
    assert_eq!(validate_settings(0, 0, 0, 0), Err(SettingsError::JobsZero));
    assert_eq!(validate_settings(17, 2, 12, 8), Err(SettingsError::JobsOverSixteen));
    assert_eq!(validate_settings(16, 0, 12, 8), Err(SettingsError::MinParagraphCharsZero));
    assert_eq!(validate_settings(1, 1, 0, 8), Err(SettingsError::TitleMaxWordsZero));
    assert_eq!(validate_settings(1, 1, 1, 0), Err(SettingsError::HeadingMaxWordsZero));
}

#[test]
fn settings_errors_read_as_the_command_line_reports_them() {
    assert_eq!(SettingsError::JobsZero.message(), "--jobs must be at least 1");
    assert_eq!(SettingsError::JobsOverSixteen.message(), "--jobs must be 16 or smaller");
    assert_eq!(
        SettingsError::MinParagraphCharsZero.message(),
        "--min-paragraph-chars must be at least 1"
    );
    assert_eq!(SettingsError::TitleMaxWordsZero.message(), "--title-max-words must be at least 1");
    assert_eq!(
        SettingsError::HeadingMaxWordsZero.message(),
        "--heading-max-words must be at least 1"
    );
}

#[test]
fn launches_until_the_job_limit() {
    assert_eq!(next_launch_step(0, 2, 3, false, 250), LaunchStep::Launch);
    assert_eq!(next_launch_step(1, 2, 2, true, 250), LaunchStep::DelayThenLaunch);
    assert_eq!(next_launch_step(1, 2, 2, true, 0), LaunchStep::Launch);
    assert_eq!(next_launch_step(2, 2, 1, true, 0), LaunchStep::Stop);
    assert_eq!(next_launch_step(0, 2, 0, false, 0), LaunchStep::Stop);
}

#[test]
fn failed_batches_are_retried_one_by_one() {
    assert_eq!(failure_plan(3), FailurePlan::RetryIndividually);
    assert_eq!(failure_plan(1), FailurePlan::FailAll);
}
