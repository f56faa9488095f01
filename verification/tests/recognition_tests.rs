use screen_text_monitor::OcrEngine;
use screen_text_monitor::OcrError;

fn strings(items: &[&str]) -> Vec<String> {
    items.iter().map(|s| s.to_string()).collect()
}

#[test]
fn normalize_trims_and_drops_blank_lines() {
    let engine = OcrEngine::new();
    assert_eq!(engine.normalize_text("  a \n\n  b  \n"), "a\nb");
    assert_eq!(engine.normalize_text(""), "");
    assert_eq!(engine.normalize_text(" \n\t\n  "), "");
    assert_eq!(engine.normalize_text("one"), "one");
}

#[test]
fn normalize_handles_carriage_returns() {
    let engine = OcrEngine::new();
    assert_eq!(engine.normalize_text("a\r\nb\r\n"), "a\nb");
}

#[test]
fn majority_vote_picks_most_frequent_line() {
    let engine = OcrEngine::new();
    let r = engine.select_best_result(&strings(&["X", "X", "Y"]));
    assert_eq!(r, "X");
}

#[test]
fn majority_vote_is_line_wise() {
    let engine = OcrEngine::new();
    let r = engine.select_best_result(&strings(&["ab\ncd", "ab\nce", "xb\ncd"]));
    assert_eq!(r, "ab\ncd");
}

#[test]
fn majority_vote_tie_keeps_first_seen() {
    let engine = OcrEngine::new();
    assert_eq!(engine.select_best_result(&strings(&["A", "B"])), "A");
}

#[test]
fn vote_skips_indexes_with_only_blank_candidates() {
    let engine = OcrEngine::new();
    // the second line is blank in every reading, so it casts no vote
    let r = engine.select_best_result(&strings(&["a\n \nc", "a\n\t\nc"]));
    assert_eq!(r, "a\nc");
}

#[test]
fn reconcile_votes_across_attempts() {
    let engine = OcrEngine::new();
    let attempts = vec![
        Some("X".to_string()),
        Some("X".to_string()),
        Some("Y".to_string()),
    ];
    assert_eq!(engine.reconcile_attempts(&attempts).unwrap(), "X");
}

#[test]
fn reconcile_returns_single_success_verbatim() {
    let engine = OcrEngine::new();
    let attempts = vec![None, Some("hello world".to_string()), None];
    assert_eq!(engine.reconcile_attempts(&attempts).unwrap(), "hello world");
}

#[test]
fn reconcile_fails_when_no_attempt_succeeded() {
    let engine = OcrEngine::new();
    let attempts: Vec<Option<String>> = vec![None, None, None];
    assert_eq!(
        engine.reconcile_attempts(&attempts).unwrap_err(),
        OcrError::AllAttemptsFailed
    );
    let empty: Vec<Option<String>> = Vec::new();
    assert_eq!(
        engine.reconcile_attempts(&empty).unwrap_err(),
        OcrError::AllAttemptsFailed
    );
}

#[test]
fn reconcile_ignores_blank_readings() {
    let engine = OcrEngine::new();
    let attempts = vec![Some("  \n ".to_string()), Some("text".to_string())];
    assert_eq!(engine.reconcile_attempts(&attempts).unwrap(), "text");
}

#[test]
fn fallback_prefers_the_primary_reading() {
    let engine = OcrEngine::new();
    assert_eq!(
        engine
            .resolve_fallback(Some("first".to_string()), Some("second".to_string()))
            .unwrap(),
        "first"
    );
    assert_eq!(
        engine.resolve_fallback(None, Some("second".to_string())).unwrap(),
        "second"
    );
    assert_eq!(
        engine.resolve_fallback(None, None).unwrap_err(),
        OcrError::AllMethodsFailed
    );
}
