use golomb::tracker::DistanceSet;

#[test]
fn records_distances_and_rejects_duplicates() {
    let mut ds = DistanceSet::new();
    assert_eq!(ds.len(), 0);
    assert!(ds.add_distances(&vec![0], 1));
    assert!(ds.add_distances(&vec![0, 1], 3));
    assert_eq!(ds.len(), 3);
    assert!(ds.contains(1));
    assert!(ds.contains(2));
    assert!(ds.contains(3));
    assert!(!ds.contains(4));
}

#[test]
fn rejected_candidate_leaves_parent_copy_unaffected() {
    let mut parent = DistanceSet::new();
    assert!(parent.add_distances(&vec![0], 1));
    assert!(parent.add_distances(&vec![0, 1], 3));
    assert_eq!(parent.len(), 3);

    let mut child = parent.duplicate();
    assert!(!child.add_distances(&vec![0, 1, 3], 5));
    assert_eq!(parent.len(), 3);

    let mut sibling = parent.duplicate();
    assert!(sibling.add_distances(&vec![0, 1, 3], 7));
    assert_eq!(parent.len(), 3);
    assert!(!parent.contains(7));
}
