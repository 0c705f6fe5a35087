//! The Hoare partition primitive.

use kth::partition::hoare_partition;

fn partitioned_around(x: &[i32], p: usize) -> bool {
    for i in 0..x.len() {
        if i < p && !(x[i] <= x[p]) {
            return false;
        }
        if i > p && !(x[i] >= x[p]) {
            return false;
        }
    }
    true
}

#[test]
fn hoare_partition_pivot_at_front() {
    let mut x = vec![3, 1, 2, 4, 5];
    let r = hoare_partition(&mut x, 0);
    assert_eq!(r, 2);
    assert_eq!(x[2], 3);
    let mut front = x[..2].to_vec();
    front.sort();
    assert_eq!(front, vec![1, 2]);
    let mut back = x[3..].to_vec();
    back.sort();
    assert_eq!(back, vec![4, 5]);
}

#[test]
fn hoare_partition_already_in_place() {
    let mut x = vec![1, 2, 3, 4, 5];
    let r = hoare_partition(&mut x, 2);
    assert_eq!(r, 2);
    assert_eq!(x, vec![1, 2, 3, 4, 5]);
}

#[test]
fn hoare_partition_all_equal() {
    let mut x = vec![5, 5, 5, 5];
    let r = hoare_partition(&mut x, 1);
    assert_eq!(x[r], 5);
    assert!(partitioned_around(&x, r));
    assert_eq!(x, vec![5, 5, 5, 5]);
}

#[test]
fn hoare_partition_many_duplicates() {
    let original = vec![2, 7, 2, 2, 9, 7, 2, 0, 7];
    for p in 0..original.len() {
        let mut x = original.clone();
        let pivot_value = x[p];
        let r = hoare_partition(&mut x, p);
        assert_eq!(x[r], pivot_value);
        assert!(partitioned_around(&x, r));
        let mut a = x.clone();
        a.sort();
        let mut b = original.clone();
        b.sort();
        assert_eq!(a, b);
    }
}

#[test]
fn hoare_partition_single_element() {
    let mut x = vec![41];
    let r = hoare_partition(&mut x, 0);
    assert_eq!(r, 0);
    assert_eq!(x, vec![41]);
}
