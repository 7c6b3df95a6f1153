use swaptop::history::{HistoryWindow, HISTORY_CAPACITY, WINDOW_SPAN};
use swaptop::view::reconcile_scroll;

#[test]
fn a_fresh_window_is_empty_with_the_axis_at_the_origin() {
    let w = HistoryWindow::new();
    assert_eq!(w.len(), 0);
    assert_eq!(w.time_left(), 0);
    assert_eq!(w.time_right(), WINDOW_SPAN);
}

#[test]
fn each_push_advances_both_edges_by_one() {
    let mut w = HistoryWindow::new();
    w.push(10);
    assert_eq!(w.time_left(), 1);
    assert_eq!(w.time_right(), WINDOW_SPAN + 1);
    w.push(20);
    assert_eq!(w.time_left(), 2);
    assert_eq!(w.time_right(), WINDOW_SPAN + 2);
    assert_eq!(w.len(), 2);
}

#[test]
fn points_carry_consecutive_ticks_starting_at_the_old_right_edge() {
    let mut w = HistoryWindow::new();
    w.push(5);
    w.push(6);
    w.push(7);
    let pts = w.points();
    assert_eq!(pts.len(), 3);
    assert_eq!((pts[0].time, pts[0].used_kb), (WINDOW_SPAN, 5));
    assert_eq!((pts[1].time, pts[1].used_kb), (WINDOW_SPAN + 1, 6));
    assert_eq!((pts[2].time, pts[2].used_kb), (WINDOW_SPAN + 2, 7));
}

#[test]
fn pushing_one_over_capacity_evicts_exactly_the_oldest() {
    let mut w = HistoryWindow::new();
    let n = HISTORY_CAPACITY as u64;
    for i in 0..=n {
        w.push(i);
    }
    assert_eq!(w.len(), HISTORY_CAPACITY);
    let pts = w.points();
    // The first pushed value is gone; values 1..=capacity remain in order.
    for (k, pt) in pts.iter().enumerate() {
        assert_eq!(pt.used_kb, k as u64 + 1);
    }
    assert_eq!(w.time_left(), n + 1);
    assert_eq!(w.time_right(), WINDOW_SPAN + n + 1);
}

#[test]
fn the_window_never_grows_past_capacity() {
    let mut w = HistoryWindow::new();
    for i in 0..500u64 {
        w.push(i);
        assert!(w.len() <= HISTORY_CAPACITY);
    }
    assert_eq!(w.len(), HISTORY_CAPACITY);
    assert_eq!(w.points()[0].used_kb, 500 - HISTORY_CAPACITY as u64);
}

#[test]
fn reconcile_clamps_into_the_scrollable_range() {
    assert_eq!(reconcile_scroll(5, 10, 3), 5);
    assert_eq!(reconcile_scroll(50, 10, 3), 7);
    assert_eq!(reconcile_scroll(4, 2, 8), 0);
    assert_eq!(reconcile_scroll(0, 0, 0), 0);
    assert_eq!(reconcile_scroll(9, 9, 0), 9);
}

#[test]
fn reconcile_is_idempotent() {
    for offset in [0usize, 1, 3, 7, 50, 1000] {
        for ch in [0usize, 1, 2, 10, 33] {
            for vh in [0usize, 1, 4, 10, 80] {
                let once = reconcile_scroll(offset, ch, vh);
                let twice = reconcile_scroll(once, ch, vh);
                assert_eq!(once, twice);
            }
        }
    }
}
