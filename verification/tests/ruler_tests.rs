use golomb::ruler::GolombRuler;

#[test]
fn empty_ruler_has_first_mark_at_zero() {
    let ruler = GolombRuler::empty(5);
    assert_eq!(ruler.marks, 5);
    assert_eq!(ruler.positions().as_slice(), &[0]);
    assert_eq!(ruler.length(), 0);
    assert_eq!(ruler.current_marks(), 1);
}

#[test]
fn add_and_remove_marks() {
    let mut ruler = GolombRuler::empty(4);
    ruler.add_mark(1);
    ruler.add_mark(4);
    assert_eq!(ruler.positions().as_slice(), &[0, 1, 4]);
    assert_eq!(ruler.length(), 4);
    assert_eq!(ruler.current_marks(), 3);
    ruler.remove_last_mark();
    assert_eq!(ruler.positions().as_slice(), &[0, 1]);
    assert_eq!(ruler.current_marks(), 2);
}

#[test]
fn position_accessor() {
    let ruler = GolombRuler::new(vec![0, 1, 4, 6], 4);
    assert_eq!(ruler.position(0), Some(0));
    assert_eq!(ruler.position(2), Some(4));
    assert_eq!(ruler.position(3), Some(6));
    assert_eq!(ruler.position(4), None);
}

#[test]
fn valid_ruler_has_distinct_distances() {
    let ruler = GolombRuler::new(vec![0, 1, 4, 6], 4);
    assert!(ruler.is_valid());
    let ruler9 = GolombRuler::new(vec![0, 1, 5, 12, 25, 27, 35, 41, 44], 9);
    assert!(ruler9.is_valid());
}

#[test]
fn repeated_distance_is_invalid() {
    let ruler = GolombRuler::new(vec![0, 1, 2], 3);
    assert!(!ruler.is_valid());
    let ruler2 = GolombRuler::new(vec![0, 2, 5, 7], 4);
    assert!(!ruler2.is_valid());
}

#[test]
fn single_mark_is_valid() {
    let ruler = GolombRuler::new(vec![0], 1);
    assert!(ruler.is_valid());
}

#[test]
fn is_valid_with_detects_new_duplicate() {
    let ruler = GolombRuler::new(vec![0, 1, 3], 4);
    assert!(!ruler.is_valid_with(5));
    assert!(ruler.is_valid_with(7));
}
