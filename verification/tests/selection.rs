//! Selection through the public facade and the generic driver.

use kth::SliceExtKth;
use kth::ceil_div;
use kth::quickselect::median_of_medians;
use kth::quickselect::quickselect;
use kth::quickselect::repeated_step3;
use kth::quickselect::MedianOfMedians;
use kth::quickselect::RepeatedStep3;

fn is_partitioned(x: &[i32], p: usize) -> bool {
    for i in 0..x.len() {
        if i < p && !(x[i] <= x[p]) {
            return false;
        }
        if i > p && !(x[i] >= x[p]) {
            return false;
        }
    }
    true
}

#[test]
fn it_works() {
    let mut x = vec![1, 2, 3];
    let i = kth::kth(&mut x, 2);
    assert_eq!(2, x[i]);
}

#[test]
fn partition_by_kth_median() {
    // sorted: 2 2 3 4 9
    let mut x = vec![3, 9, 2, 2, 4];
    let m_loc = x.len() / 2;
    x.partition_by_kth(m_loc);
    assert_eq!(x[m_loc], 3);
    let mut front = x[..2].to_vec();
    front.sort();
    assert_eq!(front, vec![2, 2]);
    let mut back = x[3..].to_vec();
    back.sort();
    assert_eq!(back, vec![4, 9]);
}

#[test]
fn partition_by_kth_duplicates() {
    // sorted: 1 2 6 6 8
    let mut x = vec![6, 6, 8, 1, 2];
    let m = x.len() / 2;
    x.partition_by_kth(m);
    assert_eq!(x[m], 6);
    assert!(is_partitioned(&x, m));
}

#[test]
fn every_rank_matches_sorted_copy() {
    let original = vec![12, -3, 7, 7, 0, 42, -3, 5, 19, 1];
    let mut sorted = original.clone();
    sorted.sort();
    for k in 0..original.len() {
        let mut x = original.clone();
        x.partition_by_kth(k);
        assert_eq!(x[k], sorted[k]);
        assert!(is_partitioned(&x, k));
    }
}

#[test]
fn selection_preserves_multiset() {
    let original = vec![9, 1, 4, 4, 4, -8, 30, 2, 2];
    let mut x = original.clone();
    x.partition_by_kth(4);
    let mut a = x.clone();
    a.sort();
    let mut b = original.clone();
    b.sort();
    assert_eq!(a, b);
}

#[test]
fn strategies_agree_on_rank() {
    let original = vec![23, 5, -1, 5, 88, 0, 13, 42, 7, 7, -20, 64, 3, 3, 11];
    for k in 0..original.len() {
        let mut x = original.clone();
        let mut y = original.clone();
        quickselect(&RepeatedStep3, &mut x, k);
        quickselect(&MedianOfMedians, &mut y, k);
        assert_eq!(x[k], y[k]);
        assert!(is_partitioned(&x, k));
        assert!(is_partitioned(&y, k));
    }
}

#[test]
fn reselect_keeps_rank_value() {
    let mut x = vec![15, 2, 9, 9, -4, 33, 6, 21, 0];
    let k = 3;
    x.partition_by_kth(k);
    let first = x[k];
    x.partition_by_kth(k);
    assert_eq!(x[k], first);
    assert!(is_partitioned(&x, k));
}

#[test]
fn select_places_kth_order_element() {
    let mut x = vec![10, 80, 30, 90, 40, 50, 70];
    kth::select(&mut x, 2);
    // sorted: 10 30 40 50 70 80 90
    assert_eq!(x[2], 40);
    assert!(is_partitioned(&x, 2));
}

#[test]
fn kth_is_counted_from_one() {
    let mut x = vec![4, 9, 4, 1, 7];
    // sorted: 1 4 4 7 9; the 1st smallest is the minimum
    let r = kth::kth(&mut x, 1);
    assert_eq!(r, 0);
    assert_eq!(x[0], 1);
    let r = kth::kth(&mut x, 5);
    assert_eq!(r, 4);
    assert_eq!(x[4], 9);
}

#[test]
fn short_input_strategies_pivot_at_middle() {
    // Below its nine-element fallback bound, the step-3 strategy partitions
    // around the element initially at the middle index.
    let mut x = vec![50, 10, 40, 20, 30, 60, 5, 25];
    let r = repeated_step3(&mut x);
    assert_eq!(x[r], 30);
    // Below five elements, the of-5 strategy does the same.
    let mut y = vec![3, 1, 2];
    let r = median_of_medians(&mut y);
    assert_eq!(y[r], 1);
}

#[test]
fn reselect_keeps_both_sides() {
    let mut x = vec![15, 2, 9, 9, -4, 33, 6, 21, 0];
    let k = 4;
    x.partition_by_kth(k);
    let middle = x[k];
    let mut left_before = x[..k].to_vec();
    left_before.sort();
    let mut right_before = x[k + 1..].to_vec();
    right_before.sort();
    x.partition_by_kth(k);
    assert_eq!(x[k], middle);
    let mut left_after = x[..k].to_vec();
    left_after.sort();
    let mut right_after = x[k + 1..].to_vec();
    right_after.sort();
    assert_eq!(left_after, left_before);
    assert_eq!(right_after, right_before);
}

#[test]
fn ceil_div_exact_values() {
    assert_eq!(ceil_div(0, 3), 0);
    assert_eq!(ceil_div(0, 0), 0);
    assert_eq!(ceil_div(1, 3), 1);
    assert_eq!(ceil_div(3, 3), 1);
    assert_eq!(ceil_div(4, 3), 2);
    assert_eq!(ceil_div(9, 3), 3);
    assert_eq!(ceil_div(10, 1), 10);
    assert_eq!(ceil_div(7, 10), 1);
}
