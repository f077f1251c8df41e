use coroutine_scheduler::vector::ScriptVector;
use coroutine_scheduler::vector::VectorError;

#[test]
fn a_negative_length_is_rejected() {
    assert_eq!(
        ScriptVector::<i64>::new(-1, 0).err(),
        Some(VectorError::InvalidLength)
    );
    assert_eq!(
        ScriptVector::<i64>::new(-100, 0).err(),
        Some(VectorError::InvalidLength)
    );
}

#[test]
fn a_new_vector_is_filled_with_the_filler() {
    let v = ScriptVector::new(3, 9i64).expect("a non-negative length");
    assert_eq!(v.len(), 3);
    assert_eq!(v.get(1), Some(9));
    assert_eq!(v.get(2), Some(9));
    assert_eq!(v.get(3), Some(9));
}

#[test]
fn an_empty_vector_has_no_elements() {
    let mut v = ScriptVector::new(0, 0i64).expect("a non-negative length");
    assert_eq!(v.len(), 0);
    assert_eq!(v.get(1), None);
    assert_eq!(v.get(-1), None);
    assert_eq!(v.pop(), None);
}

#[test]
fn indexing_is_one_based_and_counts_back_from_the_end() {
    let v = ScriptVector::of(vec![10i64, 20, 30]);
    assert_eq!(v.get(1), Some(10));
    assert_eq!(v.get(2), Some(20));
    assert_eq!(v.get(3), Some(30));
    assert_eq!(v.get(-1), Some(30));
    assert_eq!(v.get(-2), Some(20));
    assert_eq!(v.get(-3), Some(10));
    assert_eq!(v.get(0), None);
    assert_eq!(v.get(4), None);
    assert_eq!(v.get(-4), None);
}

#[test]
fn set_replaces_in_bounds_and_reports_out_of_bounds() {
    let mut v = ScriptVector::of(vec![10i64, 20, 30]);
    assert!(v.set(2, 99));
    assert_eq!(v.get(2), Some(99));
    assert!(v.set(-1, 77));
    assert_eq!(v.get(3), Some(77));
    assert!(!v.set(0, 1));
    assert!(!v.set(4, 1));
    assert!(!v.set(-4, 1));
    assert_eq!(v.get(1), Some(10));
}

#[test]
fn push_appends_and_pop_takes_from_the_back() {
    let mut v = ScriptVector::of(Vec::<i64>::new());
    assert!(v.push(1));
    assert!(v.push(2));
    assert_eq!(v.len(), 2);
    assert_eq!(v.get(-1), Some(2));
    assert_eq!(v.pop(), Some(2));
    assert_eq!(v.pop(), Some(1));
    assert_eq!(v.pop(), None);
    assert_eq!(v.len(), 0);
}
