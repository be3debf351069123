use eco_music::shuffle::{ordered, promote_to_front};
use rand::rngs::StdRng;
use rand::RngExt;
use rand::SeedableRng;

#[test]
fn shuffle_is_permutation_and_leaves_source() {
    let values: Vec<u32> = (0..50).collect();
    let out = ordered(&values, true, &mut StdRng::seed_from_u64(7));
    let mut sorted = out.clone();
    sorted.sort();
    assert_eq!(sorted, values);
    assert_ne!(out, values);
    assert_eq!(values, (0..50).collect::<Vec<u32>>());
}

#[test]
fn ordered_without_shuffle_keeps_order() {
    let values = vec![3u32, 1, 2];
    assert_eq!(
        ordered(&values, false, &mut StdRng::seed_from_u64(1)),
        values
    );
}

#[test]
fn selected_first_preserves_duplicate_occurrences() {
    let source = vec!["A", "B", "A", "C"];
    let mut shuffled = ordered(&source, true, &mut StdRng::seed_from_u64(5));
    let chosen = source[2];
    promote_to_front(&mut shuffled, &chosen);
    assert_eq!(shuffled[0], "A");
    assert_eq!(shuffled.iter().filter(|t| **t == "A").count(), 2);
    assert_eq!(shuffled.len(), 4);
    assert_eq!(source, vec!["A", "B", "A", "C"]);
    let mut sorted = shuffled.clone();
    sorted.sort();
    let mut want = source.clone();
    want.sort();
    assert_eq!(sorted, want);
}

#[test]
fn promote_moves_first_match_only() {
    let mut v = vec![3u32, 1, 2, 1];
    promote_to_front(&mut v, &1);
    assert_eq!(v, vec![1, 3, 2, 1]);
    let mut w = vec![3u32, 1, 2];
    promote_to_front(&mut w, &9);
    assert_eq!(w, vec![3, 1, 2]);
}

#[test]
fn ordered_without_shuffle_leaves_generator() {
    let mut used = StdRng::seed_from_u64(11);
    let _ = ordered(&[3u32, 1, 2], false, &mut used);
    let mut fresh = StdRng::seed_from_u64(11);
    assert_eq!(used.random::<u64>(), fresh.random::<u64>());
}

#[test]
fn second_promotion_changes_nothing() {
    let mut v = vec![3u32, 1, 2, 1];
    promote_to_front(&mut v, &1);
    let once = v.clone();
    promote_to_front(&mut v, &1);
    assert_eq!(v, once);
    assert_eq!(v, vec![1, 3, 2, 1]);
}
