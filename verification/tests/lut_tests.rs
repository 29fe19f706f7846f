use golomb::lut::get_optimal_length;
use golomb::lut::get_optimal_ruler;
use golomb::lut::is_optimal_length;

#[test]
fn optimal_length_known_entries() {
    assert_eq!(get_optimal_length(1), Some(0));
    assert_eq!(get_optimal_length(2), Some(1));
    assert_eq!(get_optimal_length(4), Some(6));
    assert_eq!(get_optimal_length(5), Some(11));
    assert_eq!(get_optimal_length(9), Some(44));
    assert_eq!(get_optimal_length(28), Some(585));
}

#[test]
fn optimal_length_outside_range() {
    assert_eq!(get_optimal_length(0), None);
    assert_eq!(get_optimal_length(29), None);
    assert_eq!(get_optimal_length(1000), None);
}

#[test]
fn optimal_ruler_known_entries() {
    assert_eq!(get_optimal_ruler(1), Some(vec![0]));
    assert_eq!(get_optimal_ruler(4), Some(vec![0, 1, 4, 6]));
    assert_eq!(get_optimal_ruler(9), Some(vec![0, 1, 5, 12, 25, 27, 35, 41, 44]));
}

#[test]
fn optimal_ruler_outside_range() {
    assert_eq!(get_optimal_ruler(0), None);
    assert_eq!(get_optimal_ruler(29), None);
}

#[test]
fn optimal_ruler_matches_optimal_length() {
    for marks in 1..=28 {
        let ruler = get_optimal_ruler(marks).unwrap();
        assert_eq!(ruler.len(), marks);
        assert_eq!(ruler[0], 0);
        assert_eq!(*ruler.last().unwrap(), get_optimal_length(marks).unwrap());
    }
}

#[test]
fn is_optimal_length_checks_entry() {
    assert!(is_optimal_length(5, 11));
    assert!(!is_optimal_length(5, 12));
    assert!(!is_optimal_length(5, 10));
    assert!(!is_optimal_length(29, 0));
}
