use screen_text_monitor::CaptureRegion;
use screen_text_monitor::MonitorError;
use screen_text_monitor::ScreenMonitor;
use screen_text_monitor::TextChangeEvent;
use screen_text_monitor::TextDiffer;

fn monitor() -> ScreenMonitor {
    ScreenMonitor::new(CaptureRegion { x: 0, y: 0, width: 100, height: 100 }, 500)
}

#[test]
fn diff_detects_added_and_removed_lines() {
    let differ = TextDiffer::new(1);
    let (added, removed) = differ.detect_changes("a\nb", "a\nc");
    assert_eq!(added, vec!["c".to_string()]);
    assert_eq!(removed, vec!["b".to_string()]);
}

#[test]
fn diff_is_order_insensitive() {
    let differ = TextDiffer::new(1);
    let (added, removed) = differ.detect_changes("a\nb", "b\na");
    assert!(added.is_empty());
    assert!(removed.is_empty());
}

#[test]
fn diff_ignores_lines_below_the_length_threshold() {
    // lengths are in bytes: "ab" is too short at a threshold of 3
    let differ = TextDiffer::new(3);
    let (added, removed) = differ.detect_changes("", "ab\nabc");
    assert_eq!(added, vec!["abc".to_string()]);
    assert!(removed.is_empty());
}

#[test]
fn diff_counts_multibyte_lengths_in_bytes() {
    // one Japanese character is three bytes, so it passes a threshold
    // of 3 that a two-byte character would not
    let differ = TextDiffer::new(3);
    let (added, _) = differ.detect_changes("", "あ\né");
    assert_eq!(added, vec!["あ".to_string()]);
}

#[test]
fn start_and_stop_transition_the_state_machine() {
    let mut m = monitor();
    assert!(!m.is_running());

    assert!(m.start_monitoring().is_ok());
    assert!(m.is_running());

    assert_eq!(m.start_monitoring().unwrap_err(), MonitorError::AlreadyMonitoring);
    assert!(m.is_running());

    assert!(m.stop_monitoring().is_ok());
    assert!(!m.is_running());

    assert_eq!(m.stop_monitoring().unwrap_err(), MonitorError::NotMonitoring);
}

#[test]
fn stop_raises_the_cancellation_flag() {
    let mut m = monitor();
    m.start_monitoring().unwrap();
    assert!(!m.cancel_requested);
    m.stop_monitoring().unwrap();
    assert!(m.cancel_requested);
}

#[test]
fn restart_clears_the_cancellation_flag_and_snapshot() {
    let mut m = monitor();
    m.start_monitoring().unwrap();
    m.process_tick(Ok("hello".to_string()));
    m.stop_monitoring().unwrap();
    m.start_monitoring().unwrap();
    assert!(!m.cancel_requested);
    assert!(m.last_text.is_none());
}

#[test]
fn first_empty_snapshot_yields_no_event() {
    let mut m = monitor();
    m.start_monitoring().unwrap();
    let events = m.process_tick(Ok(String::new()));
    assert!(events.is_empty());
    assert!(m.last_text.is_none());
}

#[test]
fn first_text_yields_new_text_event() {
    let mut m = monitor();
    m.start_monitoring().unwrap();
    let events = m.process_tick(Ok("hello".to_string()));
    assert_eq!(events.len(), 1);
    match &events[0] {
        TextChangeEvent::NewText(t) => assert_eq!(t, "hello"),
        other => panic!("unexpected event {:?}", other),
    }
    assert_eq!(m.last_text.as_deref(), Some("hello"));
}

#[test]
fn unchanged_text_yields_no_event() {
    let mut m = monitor();
    m.start_monitoring().unwrap();
    m.process_tick(Ok("hello".to_string()));
    let events = m.process_tick(Ok("hello".to_string()));
    assert!(events.is_empty());
    assert_eq!(m.last_text.as_deref(), Some("hello"));
}

#[test]
fn cleared_text_yields_cleared_event_and_forgets_snapshot() {
    let mut m = monitor();
    m.start_monitoring().unwrap();
    m.process_tick(Ok("hello".to_string()));
    let events = m.process_tick(Ok(String::new()));
    assert_eq!(events.len(), 1);
    match &events[0] {
        TextChangeEvent::TextCleared(t) => assert_eq!(t, "hello"),
        other => panic!("unexpected event {:?}", other),
    }
    assert!(m.last_text.is_none());
}

#[test]
fn changed_text_yields_diff_then_change() {
    let mut m = monitor();
    m.start_monitoring().unwrap();
    m.process_tick(Ok("a\nb".to_string()));
    let events = m.process_tick(Ok("a\nc".to_string()));
    assert_eq!(events.len(), 2);
    match &events[0] {
        TextChangeEvent::DiffDetected { added, removed } => {
            assert_eq!(added, &vec!["c".to_string()]);
            assert_eq!(removed, &vec!["b".to_string()]);
        }
        other => panic!("unexpected event {:?}", other),
    }
    match &events[1] {
        TextChangeEvent::TextChanged { old, new } => {
            assert_eq!(old, "a\nb");
            assert_eq!(new, "a\nc");
        }
        other => panic!("unexpected event {:?}", other),
    }
    assert_eq!(m.last_text.as_deref(), Some("a\nc"));
}

#[test]
fn reordered_text_yields_change_without_diff() {
    let mut m = monitor();
    m.start_monitoring().unwrap();
    m.process_tick(Ok("a\nb".to_string()));
    let events = m.process_tick(Ok("b\na".to_string()));
    assert_eq!(events.len(), 1);
    assert!(matches!(&events[0], TextChangeEvent::TextChanged { .. }));
}

#[test]
fn failed_tick_yields_error_event_and_keeps_state() {
    let mut m = monitor();
    m.start_monitoring().unwrap();
    m.process_tick(Ok("hello".to_string()));
    let events = m.process_tick(Err("capture failed".to_string()));
    assert_eq!(events.len(), 1);
    match &events[0] {
        TextChangeEvent::Error(msg) => assert_eq!(msg, "capture failed"),
        other => panic!("unexpected event {:?}", other),
    }
    assert_eq!(m.last_text.as_deref(), Some("hello"));
}

#[test]
fn update_region_and_interval_take_effect() {
    let mut m = monitor();
    m.update_region(CaptureRegion { x: 5, y: 6, width: 7, height: 8 });
    assert_eq!(m.capture.region.x, 5);
    assert_eq!(m.capture.region.y, 6);
    assert_eq!(m.capture.region.width, 7);
    assert_eq!(m.capture.region.height, 8);
    m.update_interval(250);
    assert_eq!(m.interval_ms, 250);
}
