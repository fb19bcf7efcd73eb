use k210_shared::filters::{Mean, Median};

#[test]
fn median_over_partial_window() {
    let mut m = Median::new(5);
    assert_eq!(m.update(9), 9);
    assert_eq!(m.update(1), 9);
    assert_eq!(m.update(5), 5);
    assert_eq!(m.update(7), 7);
    assert_eq!(m.update(3), 5);
}

#[test]
fn median_evicts_oldest() {
    let mut m = Median::new(3);
    assert_eq!(m.update(1), 1);
    assert_eq!(m.update(2), 2);
    assert_eq!(m.update(3), 2);
    assert_eq!(m.update(10), 3);
    assert_eq!(m.update(11), 10);
}

#[test]
fn median_equal_samples_and_negatives() {
    let mut m = Median::new(3);
    assert_eq!(m.update(-4), -4);
    assert_eq!(m.update(-4), -4);
    assert_eq!(m.update(i32::MIN), -4);
    m.clear();
    assert_eq!(m.update(i32::MAX), i32::MAX);
}

#[test]
fn mean_truncates_toward_zero() {
    let mut m = Mean::new(2);
    assert_eq!(m.update(1), 1);
    assert_eq!(m.update(2), 1);
    m.clear();
    assert_eq!(m.update(-1), -1);
    assert_eq!(m.update(-2), -1);
    assert_eq!(m.update(-4), -3);
}

#[test]
fn mean_of_extremes_does_not_overflow() {
    let mut m = Mean::new(8);
    for _ in 0..8 {
        assert_eq!(m.update(i32::MAX), i32::MAX);
    }
    assert_eq!(m.update(i32::MIN), 1610612735);
}

#[test]
fn window_of_one_passes_through() {
    let mut a = Median::new(1);
    let mut b = Mean::new(1);
    for v in [5, -3, 100, 0] {
        assert_eq!(a.update(v), v);
        assert_eq!(b.update(v), v);
    }
}
