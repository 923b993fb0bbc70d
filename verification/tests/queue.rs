use ebb::queue::{TextQueue, TextSource};

fn text(content: &str, seconds: f32) -> TextSource {
    TextSource { content: content.to_string(), duration_bits: seconds.to_bits() }
}

fn three() -> TextQueue {
    TextQueue::new(vec![text("A", 5.0), text("B", 8.0), text("C", 2.5)]).unwrap()
}

#[test]
fn queue_starts_on_first_announcement() {
    let q = three();
    assert_eq!(q.len(), 3);
    assert_eq!(q.current_index(), 0);
    assert_eq!(q.current(), text("A", 5.0));
}

#[test]
fn queue_rejects_empty_list() {
    assert!(TextQueue::new(Vec::new()).is_none());
}

#[test]
fn queue_rejects_durations_that_are_not_positive() {
    for bad in [0.0f32, -0.0, -1.0, f32::INFINITY, f32::NEG_INFINITY, f32::NAN] {
        let made = TextQueue::new(vec![text("A", 5.0), text("B", bad)]);
        assert!(made.is_none(), "accepted {}", bad);
    }
}

#[test]
fn queue_accepts_every_positive_finite_duration() {
    for good in [f32::MIN_POSITIVE, 1.0e-40, 0.5, 5.0, f32::MAX] {
        assert!(TextQueue::new(vec![text("A", good)]).is_some(), "refused {}", good);
    }
}

#[test]
fn duration_test_matches_float_comparison() {
    for seconds in [0.0f32, 1.0e-45, 2.0, -2.0, f32::MAX, f32::INFINITY, f32::NAN] {
        let t = text("A", seconds);
        assert_eq!(t.has_positive_duration(), seconds > 0.0 && seconds.is_finite());
    }
}

#[test]
fn duplicate_is_equal() {
    let t = text("大阪", 8.0);
    assert_eq!(t.duplicate(), t);
}

#[test]
fn advance_moves_one_place_and_wraps() {
    let mut q = three();
    assert_eq!(q.advance(), text("B", 8.0));
    assert_eq!(q.current_index(), 1);
    assert_eq!(q.advance(), text("C", 2.5));
    assert_eq!(q.current_index(), 2);
    assert_eq!(q.advance(), text("A", 5.0));
    assert_eq!(q.current_index(), 0);
}

#[test]
fn advance_length_times_returns_to_start() {
    for start in 0..3usize {
        let mut q = three();
        assert!(q.jump(start).is_some());
        let first = q.current();
        for _ in 0..q.len() {
            q.advance();
            assert!(q.current_index() < q.len());
        }
        assert_eq!(q.current_index(), start);
        assert_eq!(q.current(), first);
    }
}

#[test]
fn advance_on_single_announcement_stays() {
    let mut q = TextQueue::new(vec![text("only", 1.0)]).unwrap();
    assert_eq!(q.advance(), text("only", 1.0));
    assert_eq!(q.current_index(), 0);
}

#[test]
fn jump_sets_cursor() {
    let mut q = three();
    assert_eq!(q.jump(2), Some(text("C", 2.5)));
    assert_eq!(q.current_index(), 2);
    assert_eq!(q.current(), text("C", 2.5));
    assert_eq!(q.jump(0), Some(text("A", 5.0)));
    assert_eq!(q.current_index(), 0);
}

#[test]
fn jump_out_of_range_changes_nothing() {
    let mut q = three();
    q.jump(1);
    assert_eq!(q.jump(3), None);
    assert_eq!(q.current_index(), 1);
    assert_eq!(q.jump(5), None);
    assert_eq!(q.jump(usize::MAX), None);
    assert_eq!(q.current_index(), 1);
    assert_eq!(q.current(), text("B", 8.0));
}

#[test]
fn get_reads_without_moving() {
    let q = three();
    assert_eq!(q.get(2), Some(text("C", 2.5)));
    assert_eq!(q.get(3), None);
    assert_eq!(q.current_index(), 0);
}

#[test]
fn neighbors_in_the_middle() {
    let q = three();
    assert_eq!(q.neighbors(1), ("A".to_string(), "C".to_string()));
}

#[test]
fn neighbors_at_head_have_empty_predecessor() {
    let q = three();
    assert_eq!(q.neighbors(0), (String::new(), "B".to_string()));
}

#[test]
fn neighbors_at_tail_wrap_to_head() {
    let q = three();
    assert_eq!(q.neighbors(2), ("B".to_string(), "A".to_string()));
}

#[test]
fn neighbors_of_single_announcement() {
    let q = TextQueue::new(vec![text("only", 1.0)]).unwrap();
    assert_eq!(q.neighbors(0), (String::new(), "only".to_string()));
}
