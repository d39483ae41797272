use epub_reader::batching::{build_translation_batches, effective_text_chars, PendingParagraph};

fn pending(id: &str, len: usize) -> PendingParagraph {
    PendingParagraph {
        para_id: id.to_string(),
        para_text: "a".repeat(len),
    }
}

#[test]
fn batching_respects_max_items_cap() {
    let pending = (0..10)
        .map(|idx| pending(&format!("p{}", idx), 300))
        .collect::<Vec<_>>();

    let batches = build_translation_batches(pending);
    assert_eq!(batches.len(), 1);
    assert_eq!(batches[0].paragraphs.len(), 10);
}

#[test]
fn batching_stops_near_target_total_chars() {
    let pending = vec![
        pending("p1", 2_600),
        pending("p2", 2_400),
        pending("p3", 300),
    ];

    let batches = build_translation_batches(pending);
    assert_eq!(batches.len(), 2);
    assert_eq!(batches[0].paragraphs.len(), 2);
    assert_eq!(batches[1].paragraphs.len(), 1);
}

#[test]
fn batching_respects_hard_char_limit() {
    let pending = (0..3)
        .map(|idx| pending(&format!("p{}", idx), 2_400))
        .collect::<Vec<_>>();

    let batches = build_translation_batches(pending);
    assert_eq!(batches.len(), 2);
    assert_eq!(batches[0].paragraphs.len(), 2);
    assert_eq!(batches[1].paragraphs.len(), 1);
}

#[test]
fn oversized_paragraphs_are_sent_alone() {
    let pending = vec![pending("p1", 2_900), pending("p2", 2_950)];
    let batches = build_translation_batches(pending);

    assert_eq!(batches.len(), 2);
    assert!(batches.iter().all(|batch| batch.paragraphs.len() == 1));
}

#[test]
fn effective_text_chars_ignores_whitespace() {
    assert_eq!(effective_text_chars("ab c\n d\t"), 4);
}

#[test]
fn batching_keeps_every_paragraph_in_order() {
    let lens = [100, 2_900, 50, 50, 3_000, 10, 7_000, 1];
    let items = lens
        .iter()
        .enumerate()
        .map(|(i, n)| pending(&format!("p{}", i), *n))
        .collect::<Vec<_>>();
    let batches = build_translation_batches(items);
    let ids: Vec<String> = batches
        .iter()
        .flat_map(|b| b.paragraphs.iter().map(|p| p.para_id.clone()))
        .collect();
    assert_eq!(ids, (0..8).map(|i| format!("p{}", i)).collect::<Vec<_>>());
    let sizes: Vec<usize> = batches.iter().map(|b| b.paragraphs.len()).collect();
    assert_eq!(sizes, vec![1, 1, 2, 1, 1, 1, 1]);
    assert!(build_translation_batches(Vec::new()).is_empty());
}

#[test]
fn several_small_paragraphs_stop_at_the_target() {
    let items = (0..6).map(|i| pending(&format!("p{}", i), 1_700)).collect::<Vec<_>>();
    let sizes: Vec<usize> = build_translation_batches(items)
        .iter()
        .map(|b| b.paragraphs.len())
        .collect();
    assert_eq!(sizes, vec![3, 3]);
}
