use osgrep_core::rank::apply_order_u32;
use osgrep_core::rank::rank_descending;
use osgrep_core::rank::top_k_descending;

#[test]
fn rank_sorts_descending() {
    let keys = vec![5i64, 7, 5, 3];
    let ord = rank_descending(&keys);
    assert_eq!(ord, vec![1, 0, 2, 3]);
}

#[test]
fn rank_is_stable_on_ties() {
    // Equal keys keep the caller's candidate order.
    let keys = vec![4i64, 4, 4, 4];
    let ord = rank_descending(&keys);
    assert_eq!(ord, vec![0, 1, 2, 3]);
}

#[test]
fn rank_handles_negative_keys() {
    let keys = vec![-3i64, 9, -3, 0];
    let ord = rank_descending(&keys);
    assert_eq!(ord, vec![1, 3, 0, 2]);
}

#[test]
fn top_k_truncates() {
    let keys = vec![5i64, 7, 5, 3];
    assert_eq!(top_k_descending(&keys, 2), vec![1, 0]);
    assert_eq!(top_k_descending(&keys, 0), Vec::<usize>::new());
}

#[test]
fn top_k_beyond_len_returns_all() {
    let keys = vec![2i64, 9];
    assert_eq!(top_k_descending(&keys, 10), vec![1, 0]);
}

#[test]
fn top_k_empty_candidates() {
    let keys: Vec<i64> = vec![];
    assert_eq!(top_k_descending(&keys, 5), Vec::<usize>::new());
}

#[test]
fn order_is_deterministic() {
    // Identical inputs give identical rankings across repeated calls.
    let keys = vec![8i64, 1, 8, 8, -2, 100];
    let first = top_k_descending(&keys, 4);
    for _ in 0..5 {
        assert_eq!(top_k_descending(&keys, 4), first);
    }
}

#[test]
fn apply_order_maps_candidates() {
    let candidates = vec![40u32, 41, 42, 43];
    let order = vec![2usize, 0, 3];
    assert_eq!(apply_order_u32(&candidates, &order), vec![42, 40, 43]);
}
