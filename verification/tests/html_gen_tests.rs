use epub_reader::html_gen::{
    generate_html, highlight_code_html, normalized_language_token, patch_html, render_chunks,
    render_code_block, render_para_block, render_toc, render_vocab,
};
use epub_reader::types::{
    Book, Chapter, ChunkEntry, LlmResponse, Paragraph, ParagraphKind, VocabEntry,
};

fn text_para(id: &str, text: &str) -> Paragraph {
    Paragraph {
        id: id.to_string(),
        text: text.to_string(),
        kind: ParagraphKind::Text,
    }
}

fn code_para(id: &str, text: &str, language: Option<&str>) -> Paragraph {
    Paragraph {
        id: id.to_string(),
        text: text.to_string(),
        kind: ParagraphKind::CodeBlock {
            language: language.map(|l| l.to_string()),
        },
    }
}

fn expected_block(id: &str, status: &str, source: &str, tr: &str, vocab: &str, chunks: &str) -> String {
    format!(
        r#"<div class="para-block" id="{id}" data-status="{status}">
  <p class="original-text">{source}</p>
  <details class="ai-section translation-section" data-detail-key="{id}:translation">
    <summary><span class="section-icon">🈳</span> 译文</summary>
    <div class="ai-content">{tr}</div>
  </details>
  <details class="ai-section vocab-section" data-detail-key="{id}:vocab">
    <summary><span class="section-icon">📚</span> 词汇 (IELTS 6.5+)</summary>
    <div class="ai-content">{vocab}</div>
  </details>
  <details class="ai-section chunk-section" data-detail-key="{id}:chunks">
    <summary><span class="section-icon">🔗</span> 常用短语 / Chunks</summary>
    <div class="ai-content">{chunks}</div>
  </details>
</div>
"#
    )
}

fn response(translation: &str) -> LlmResponse {
    LlmResponse {
        translation: translation.to_string(),
        vocabulary: vec![VocabEntry {
            word: "tomb".to_string(),
            ipa: "/tuːm/".to_string(),
            pos: "n.".to_string(),
            cn: "坟墓".to_string(),
            example: "The <old> tomb".to_string(),
        }],
        chunks: vec![ChunkEntry {
            chunk: "at last".to_string(),
            cn: "终于".to_string(),
            example: "At last & finally".to_string(),
        }],
    }
}

fn small_book() -> Book {
    Book {
        slug: "tale".to_string(),
        title: "A <Tale>".to_string(),
        chapters: vec![
            Chapter {
                index: 0,
                title: Some("Start".to_string()),
                paragraphs: vec![
                    text_para("tale-ch000-p0000", "First words."),
                    code_para("tale-ch000-p0001", "let x = 1;", Some("rs")),
                    text_para("tale-ch000-p0002", "Second words."),
                ],
            },
            Chapter {
                index: 1,
                title: None,
                paragraphs: vec![text_para("tale-ch001-p0000", "Third words.")],
            },
        ],
    }
}

#[test]
fn pending_block_has_placeholders_and_escaped_text() {
    let para = text_para("b-ch000-p0000", "Tom & <Jerry>");
    let block = render_para_block(&para, None);
    let expected = expected_block(
        "b-ch000-p0000",
        "pending",
        "Tom &amp; &lt;Jerry&gt;",
        "<!-- FILL:translation -->",
        "<!-- FILL:vocab -->",
        "<!-- FILL:chunks -->",
    );
    assert_eq!(block, expected);
}

#[test]
fn filled_block_renders_translation_vocab_and_chunks() {
    let para = text_para("b-ch000-p0000", "The old tomb.");
    let resp = response("古老的坟墓。");
    let block = render_para_block(&para, Some(&resp));
    let vocab = "<div class=\"vocab-scroll\"><table class=\"vocab-table\"><thead><tr><th>单词</th><th>音标</th><th>词性</th><th>释义</th><th>例句</th></tr></thead><tbody><tr><td class=\"word\">tomb</td><td class=\"ipa\">/tuːm/</td><td class=\"pos\">n.</td><td>坟墓</td><td class=\"example\"><em>The &lt;old&gt; tomb</em></td></tr></tbody></table></div>";
    let chunks = "<ul class=\"chunk-list\"><li><span class=\"chunk-phrase\">at last</span> <span class=\"chunk-cn\">（终于）</span><br><em class=\"chunk-example\">At last &amp; finally</em></li></ul>";
    let expected = expected_block(
        "b-ch000-p0000",
        "done",
        "The old tomb.",
        "<p>古老的坟墓。</p>",
        vocab,
        chunks,
    );
    assert_eq!(block, expected);
}

#[test]
fn empty_sections_show_a_dash() {
    assert_eq!(render_vocab(&vec![]), "<p class=\"empty\">—</p>");
    assert_eq!(render_chunks(&vec![]), "<p class=\"empty\">—</p>");
}

#[test]
fn language_aliases_are_normalized() {
    assert_eq!(normalized_language_token(" JS ").as_deref(), Some("javascript"));
    assert_eq!(normalized_language_token("c++").as_deref(), Some("cpp"));
    assert_eq!(normalized_language_token("Shell").as_deref(), Some("bash"));
    assert_eq!(normalized_language_token("Kotlin").as_deref(), Some("kotlin"));
    assert_eq!(normalized_language_token("   "), None);
}

#[test]
fn code_blocks_are_labelled_and_highlighted() {
    let para = code_para("b-ch000-p0001", "fn main() {}\n", Some(" rust "));
    let block = render_code_block(&para, Some(" rust "));
    assert!(block.starts_with(
        "<figure class=\"code-block\" id=\"b-ch000-p0001\">\n  <figcaption class=\"code-block-label\">rust</figcaption>\n  <div class=\"code-block-html\">"
    ));
    assert!(block.ends_with("</div>\n</figure>\n"));
    let highlighted = highlight_code_html("fn main() {}\n", Some("rust"));
    assert!(highlighted.starts_with("<pre"));
    assert!(highlighted.contains("main"));
    assert!(block.contains(&highlighted));
    let unlabelled = render_code_block(&para, None);
    assert!(unlabelled.contains("<figcaption class=\"code-block-label\">code</figcaption>"));
}

#[test]
fn toc_lists_chapters_with_prose_counts() {
    let toc = render_toc(&small_book());
    let expected = [
        "<nav class=\"toc-nav\" aria-label=\"Chapter navigation\">",
        "<a class=\"toc-link\" href=\"#ch000\" data-chapter-id=\"ch000\"><span class=\"toc-link-index\">01</span><span class=\"toc-link-title\">Start</span><span class=\"toc-link-meta\">2 p</span></a>",
        "<a class=\"toc-link\" href=\"#ch001\" data-chapter-id=\"ch001\"><span class=\"toc-link-index\">02</span><span class=\"toc-link-title\">Chapter 2</span><span class=\"toc-link-meta\">1 p</span></a>",
        "</nav>",
    ]
    .join("");
    assert_eq!(toc, expected);
}

#[test]
fn generated_page_fills_every_placeholder() {
    let book = small_book();
    let page = generate_html(&book);
    assert!(!page.contains("{{TITLE}}"));
    assert!(!page.contains("{{SLUG}}"));
    assert!(!page.contains("{{TOC}}"));
    assert!(!page.contains("{{BODY}}"));
    assert!(page.contains("A &lt;Tale&gt;"));
    assert!(page.contains(&render_toc(&book)));
    assert!(page.contains("<section class=\"chapter\" id=\"ch000\">\n  <h2 class=\"chapter-title\">Start</h2>\n"));
    assert!(page.contains("<section class=\"chapter\" id=\"ch001\">\n  <h2 class=\"chapter-title\">Chapter 2</h2>\n"));
    let first = render_para_block(&book.chapters[0].paragraphs[0], None);
    assert!(page.contains(&first));
    assert!(page.contains("<figure class=\"code-block\" id=\"tale-ch000-p0001\">"));
    assert!(page.starts_with("<!DOCTYPE html>"));
}

#[test]
fn patching_replaces_the_pending_block() {
    let book = small_book();
    let page = generate_html(&book);
    let para = &book.chapters[0].paragraphs[2];
    let resp = response("第二句话。");
    let patched = patch_html(&page, para, &resp);
    let old_block = render_para_block(para, None);
    let new_block = render_para_block(para, Some(&resp));
    // the old block's trailing newline stays behind the new block
    let expected = page.replacen(&old_block, &format!("{}\n", new_block), 1);
    assert_eq!(patched, expected);
    assert!(!patched.contains(&old_block));
}

#[test]
fn patching_a_filled_block_replaces_it_again() {
    let book = small_book();
    let page = generate_html(&book);
    let para = &book.chapters[1].paragraphs[0];
    let once = patch_html(&page, para, &response("一"));
    let twice = patch_html(&once, para, &response("二"));
    let filled_once = render_para_block(para, Some(&response("一")));
    let filled_twice = render_para_block(para, Some(&response("二")));
    assert_eq!(twice, once.replacen(&filled_once, &format!("{}\n", filled_twice), 1));
}

#[test]
fn annotations_commute_on_a_page() {
    let book = small_book();
    let page = generate_html(&book);
    let p1 = &book.chapters[0].paragraphs[0];
    let p2 = &book.chapters[1].paragraphs[0];
    let r1 = response("甲");
    let r2 = response("乙");
    let a = patch_html(&patch_html(&page, p1, &r1), p2, &r2);
    let b = patch_html(&patch_html(&page, p2, &r2), p1, &r1);
    assert_eq!(a, b);
}

#[test]
fn code_and_unknown_paragraphs_leave_the_page_alone() {
    let book = small_book();
    let page = generate_html(&book);
    let code = &book.chapters[0].paragraphs[1];
    assert_eq!(patch_html(&page, code, &response("x")), page);
    let stranger = text_para("other-ch000-p0000", "Not here.");
    assert_eq!(patch_html(&page, &stranger, &response("x")), page);
}

#[test]
fn id_text_in_an_earlier_paragraph_does_not_mislead_patching() {
    let mut book = small_book();
    book.chapters[0].paragraphs[0].text = "He wrote id=\"tale-ch001-p0000\" on the wall.".to_string();
    let page = generate_html(&book);
    let para = &book.chapters[1].paragraphs[0];
    let resp = response("第三句话。");
    let patched = patch_html(&page, para, &resp);
    let old_block = render_para_block(para, None);
    let new_block = render_para_block(para, Some(&resp));
    assert_eq!(patched, page.replacen(&old_block, &format!("{}\n", new_block), 1));
    assert!(patched.contains(&render_para_block(&book.chapters[0].paragraphs[0], None)));
}

#[test]
fn a_paragraph_id_like_a_section_id_patches_its_own_block() {
    let mut book = small_book();
    book.chapters[1].paragraphs[0].id = "ch000".to_string();
    let page = generate_html(&book);
    let para = &book.chapters[1].paragraphs[0];
    let resp = response("章。");
    let patched = patch_html(&page, para, &resp);
    let old_block = render_para_block(para, None);
    let new_block = render_para_block(para, Some(&resp));
    assert_eq!(patched, page.replacen(&old_block, &format!("{}\n", new_block), 1));
    assert!(patched.contains("<section class=\"chapter\" id=\"ch000\">"));
}
