use osgrep_core::errors::CoreError;
use osgrep_core::skiplist::scored_mask;
use osgrep_core::skiplist::SkipList;

#[test]
fn empty_skiplist_skips_nothing() {
    let sl = SkipList::empty();
    assert!(!sl.contains(0));
    assert!(!sl.contains(42));
}

#[test]
fn from_ids_contains_exactly_those() {
    let sl = SkipList::from_ids(vec![5, 9, 9, 13]);
    assert!(sl.contains(5));
    assert!(sl.contains(9));
    assert!(sl.contains(13));
    assert!(!sl.contains(6));
}

#[test]
fn from_json_parses_id_array() {
    let sl = SkipList::from_json("[1, 2, 3]").unwrap();
    assert!(sl.contains(1));
    assert!(sl.contains(2));
    assert!(sl.contains(3));
    assert!(!sl.contains(4));
}

#[test]
fn from_json_empty_array_is_empty() {
    let sl = SkipList::from_json("[]").unwrap();
    assert!(!sl.contains(0));
    assert!(sl.to_ids().is_empty());
}

#[test]
fn from_json_rejects_malformed_text() {
    let r = SkipList::from_json("not json at all");
    assert_eq!(r.err(), Some(CoreError::ArtifactMissing));
    let r2 = SkipList::from_json("{\"a\": 1}");
    assert_eq!(r2.err(), Some(CoreError::ArtifactMissing));
    let r3 = SkipList::from_json("[-1]");
    assert_eq!(r3.err(), Some(CoreError::ArtifactMissing));
}

#[test]
fn scored_mask_hides_skipped_tokens() {
    // A skip-listed document token is invisible to every query row.
    let sl = SkipList::from_ids(vec![5]);
    let mask = scored_mask(&vec![1, 5, 9, 5], &sl);
    assert_eq!(mask, vec![true, false, true, false]);
}

#[test]
fn scored_mask_with_empty_skiplist_is_all_true() {
    let sl = SkipList::empty();
    let mask = scored_mask(&vec![7, 8], &sl);
    assert_eq!(mask, vec![true, true]);
}
