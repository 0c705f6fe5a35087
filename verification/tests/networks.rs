//! The fixed-size sorting and median networks.

use kth::networks::partition5;
use kth::networks::partition5_2;
use kth::networks::sort3;
use kth::networks::sort5;

fn median_at_middle(w: &[i32]) -> bool {
    w[0] <= w[2] && w[1] <= w[2] && w[2] <= w[3] && w[2] <= w[4]
}

#[test]
fn sort3_all_permutations() {
    let perms = [
        [1, 2, 3],
        [1, 3, 2],
        [2, 1, 3],
        [2, 3, 1],
        [3, 1, 2],
        [3, 2, 1],
    ];
    for p in perms.iter() {
        let mut v = p.to_vec();
        sort3(&mut v, 0);
        assert_eq!(v, vec![1, 2, 3]);
    }
}

#[test]
fn sort3_with_duplicates_and_offset() {
    let mut v = vec![9, 9, 7, 8, 7, 0];
    sort3(&mut v, 2);
    assert_eq!(v, vec![9, 9, 7, 7, 8, 0]);
}

#[test]
fn sort5_sorts() {
    let mut v = vec![5, 4, 3, 2, 1];
    sort5(&mut v, 0);
    assert_eq!(v, vec![1, 2, 3, 4, 5]);
    let mut v = vec![2, 2, 1, 2, 1];
    sort5(&mut v, 0);
    assert_eq!(v, vec![1, 1, 2, 2, 2]);
    let mut v = vec![0, 9, 1, 8, 2, 7, 100];
    sort5(&mut v, 1);
    assert_eq!(v, vec![0, 1, 2, 7, 8, 9, 100]);
}

#[test]
fn partition5_median_rests_at_middle() {
    let inputs = [
        [1, 2, 3, 4, 5],
        [5, 4, 3, 2, 1],
        [2, 2, 2, 1, 3],
        [9, 0, 4, 7, 1],
        [3, 3, 3, 3, 3],
        [1, 5, 2, 5, 1],
    ];
    for w in inputs.iter() {
        let mut v = w.to_vec();
        partition5(&mut v, 0);
        assert!(median_at_middle(&v));
        let mut a = v.clone();
        a.sort();
        let mut b = w.to_vec();
        b.sort();
        assert_eq!(a, b);
        assert_eq!(v[2], b[2]);
    }
}

#[test]
fn partition5_2_median_rests_at_middle() {
    let inputs = [
        [1, 2, 3, 4, 5],
        [5, 4, 3, 2, 1],
        [2, 2, 2, 1, 3],
        [9, 0, 4, 7, 1],
        [3, 3, 3, 3, 3],
        [1, 5, 2, 5, 1],
    ];
    for w in inputs.iter() {
        let mut v = w.to_vec();
        partition5_2(&mut v, 0);
        assert!(median_at_middle(&v));
        let mut b = w.to_vec();
        b.sort();
        assert_eq!(v[2], b[2]);
    }
}

#[test]
fn networks_leave_outside_untouched() {
    let mut v = vec![100, 5, 4, 3, 2, 1, -100];
    partition5(&mut v, 1);
    assert_eq!(v[0], 100);
    assert_eq!(v[6], -100);
    assert!(v[1] <= v[3] && v[2] <= v[3] && v[3] <= v[4] && v[3] <= v[5]);
}
