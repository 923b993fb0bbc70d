use ebb::loader::{preset_queue, unwrap_csv, DEMO_DURATION_BITS};
use ebb::queue::{is_usable, TextQueue, TextSource};
use ebb::text::{count_ascii, width_in_half_widths};

fn demo() -> Vec<TextSource> {
    vec![TextSource { content: "This is a Demo Text".to_string(), duration_bits: 5.0f32.to_bits() }]
}

fn text(content: &str, seconds: f32) -> TextSource {
    TextSource { content: content.to_string(), duration_bits: seconds.to_bits() }
}

#[test]
fn count_ascii_of_plain_text() {
    assert_eq!(count_ascii("This is a Demo Text"), (19, 0));
}

#[test]
fn count_ascii_of_mixed_text() {
    assert_eq!(count_ascii("学友会執行委員会 音響課"), (1, 11));
    assert_eq!(count_ascii("abc大阪"), (3, 2));
}

#[test]
fn count_ascii_of_empty_text() {
    assert_eq!(count_ascii(""), (0, 0));
}

#[test]
fn count_ascii_at_the_boundary() {
    assert_eq!(count_ascii("\u{7f}"), (1, 0));
    assert_eq!(count_ascii("\u{80}"), (0, 1));
    assert_eq!(count_ascii("\u{10ffff}\u{0}"), (1, 1));
}

#[test]
fn unwrap_csv_keeps_what_was_loaded() {
    let loaded = vec![
        TextSource { content: "A".to_string(), duration_bits: 5.0f32.to_bits() },
        TextSource { content: "B".to_string(), duration_bits: 8.0f32.to_bits() },
    ];
    assert_eq!(unwrap_csv(Some(loaded.clone())), loaded);
}

#[test]
fn unwrap_csv_gives_demo_text_for_presets_without_announcements() {
    assert_eq!(unwrap_csv(Some(Vec::new())), demo());
}

#[test]
fn unwrap_csv_gives_demo_text_for_a_duration_that_is_not_positive() {
    for bad in [0.0f32, -0.0, -3.0, f32::INFINITY, f32::NAN] {
        let loaded = vec![text("A", 5.0), text("B", bad), text("C", 1.0)];
        assert_eq!(unwrap_csv(Some(loaded)), demo(), "kept {}", bad);
    }
}

#[test]
fn unwrap_csv_always_gives_what_a_queue_can_be_built_over() {
    let cases = [
        None,
        Some(Vec::new()),
        Some(vec![text("A", 0.0)]),
        Some(vec![text("A", 2.0)]),
        Some(vec![text("A", 2.0), text("B", -1.0)]),
    ];
    for loaded in cases {
        let texts = unwrap_csv(loaded);
        assert!(!texts.is_empty());
        assert!(is_usable(&texts));
        for t in &texts {
            let seconds = f32::from_bits(t.duration_bits);
            assert!(seconds > 0.0 && seconds.is_finite());
        }
        assert!(TextQueue::new(texts).is_some());
    }
}

#[test]
fn is_usable_tells_what_a_queue_can_be_built_over() {
    assert!(!is_usable(&Vec::new()));
    assert!(is_usable(&vec![text("A", 0.5)]));
    assert!(!is_usable(&vec![text("A", 0.5), text("B", 0.0)]));
    assert!(!is_usable(&vec![text("A", f32::NAN)]));
    assert!(is_usable(&vec![text("", f32::MAX), text("B", f32::MIN_POSITIVE)]));
}

#[test]
fn preset_queue_is_over_what_was_loaded() {
    let q = preset_queue(Some(vec![text("A", 5.0), text("B", 8.0)]));
    assert_eq!(q.len(), 2);
    assert_eq!(q.current_index(), 0);
    assert_eq!(q.current(), text("A", 5.0));
    assert_eq!(q.get(1), Some(text("B", 8.0)));
}

#[test]
fn preset_queue_falls_back_to_demo_text() {
    for loaded in [None, Some(Vec::new()), Some(vec![text("A", 5.0), text("B", 0.0)])] {
        let q = preset_queue(loaded);
        assert_eq!(q.len(), 1);
        assert_eq!(q.current_index(), 0);
        assert_eq!(q.current(), demo()[0]);
    }
}

#[test]
fn width_counts_one_for_ascii_and_two_otherwise() {
    assert_eq!(width_in_half_widths(""), 0);
    assert_eq!(width_in_half_widths("This is a Demo Text"), 19);
    assert_eq!(width_in_half_widths("学友会執行委員会 音響課"), 23);
    assert_eq!(width_in_half_widths("abc大阪"), 7);
    assert_eq!(width_in_half_widths("\u{7f}\u{80}\u{10ffff}"), 5);
}

#[test]
fn width_is_never_more_than_the_bytes() {
    for s in ["", "a", "é", "大阪公立大学工業高等専門学校", "a\u{80}b\u{10ffff}c"] {
        let (ascii, wide) = count_ascii(s);
        assert_eq!(width_in_half_widths(s), ascii + 2 * wide);
        assert!(width_in_half_widths(s) <= s.len());
        assert!(s.chars().count() <= width_in_half_widths(s));
    }
}

#[test]
fn unwrap_csv_falls_back_to_demo_text() {
    let texts = unwrap_csv(None);
    assert_eq!(texts, demo());
    assert_eq!(f32::from_bits(DEMO_DURATION_BITS), 5.0);
    assert!(TextQueue::new(texts).is_some());
}
