use staticvec::{new_from_value, CapacityError, StaticVec};

#[test]
fn new_is_empty() {
    let v = StaticVec::<u32, 4>::new();
    assert_eq!(v.len(), 0);
    assert!(v.is_empty());
    assert_eq!(v.capacity(), 4);
}

#[test]
fn push_then_pop_in_order() {
    let mut v = StaticVec::<u32, 3>::new();
    assert!(v.push(1).is_ok());
    assert!(v.push(2).is_ok());
    assert_eq!(v.as_slice(), &[1, 2]);
    assert_eq!(v.pop(), Some(2));
    assert_eq!(v.pop(), Some(1));
    assert_eq!(v.len(), 0);
}

#[test]
fn push_to_full_is_refused() {
    let mut v = StaticVec::<String, 2>::new();
    assert!(v.push("a".to_string()).is_ok());
    assert!(v.push("b".to_string()).is_ok());
    assert!(v.is_full());
    let r = v.push("c".to_string());
    assert_eq!(r, Err(CapacityError { value: "c".to_string() }));
    assert_eq!(v.len(), 2);
    assert_eq!(v.as_slice(), &["a".to_string(), "b".to_string()]);
}

#[test]
fn push_unchecked_appends() {
    let mut v = StaticVec::<u8, 2>::new();
    v.push_unchecked(9);
    assert_eq!(v.as_slice(), &[9]);
}

#[test]
fn pop_empty_gives_nothing() {
    let mut v = StaticVec::<u32, 3>::new();
    assert_eq!(v.pop(), None);
    assert_eq!(v.len(), 0);
    assert!(v.as_slice().is_empty());
}

#[test]
fn pop_empty_zero_capacity() {
    let mut v = StaticVec::<u32, 0>::new();
    assert_eq!(v.pop(), None);
    assert!(v.push(1).is_err());
    assert_eq!(v.len(), 0);
}

#[test]
fn insert_and_remove_shift() {
    let mut v = StaticVec::<u32, 4>::new();
    assert!(v.push(1).is_ok());
    assert!(v.push(3).is_ok());
    assert!(v.insert(1, 2).is_ok());
    assert!(v.insert(0, 0).is_ok());
    assert_eq!(v.as_slice(), &[0, 1, 2, 3]);
    assert_eq!(v.insert(2, 9), Err(CapacityError { value: 9 }));
    assert_eq!(v.as_slice(), &[0, 1, 2, 3]);
    assert_eq!(v.remove(1), 1);
    assert_eq!(v.as_slice(), &[0, 2, 3]);
}

#[test]
fn length_stays_within_capacity() {
    let mut v = StaticVec::<u32, 3>::new();
    for i in 0..10u32 {
        let _ = v.push(i);
        assert!(v.len() <= v.capacity());
    }
    assert_eq!(v.as_slice(), &[0, 1, 2]);
    let _ = v.remove(0);
    let _ = v.insert(0, 7);
    let _ = v.insert(0, 8);
    assert_eq!(v.len(), 3);
    for _ in 0..5 {
        let _ = v.pop();
    }
    assert_eq!(v.len(), 0);
}

#[test]
fn get_in_and_past_length() {
    let v = StaticVec::<u32, 4>::new_from_slice(&[5, 6]);
    assert_eq!(v.get(0), Some(&5));
    assert_eq!(v.get(1), Some(&6));
    assert_eq!(v.get(2), None);
    assert_eq!(v.get(4), None);
}

#[test]
fn truncate_and_clear() {
    let mut v = StaticVec::<u32, 4>::new_from_slice(&[1, 2, 3]);
    v.truncate(5);
    assert_eq!(v.as_slice(), &[1, 2, 3]);
    v.truncate(1);
    assert_eq!(v.as_slice(), &[1]);
    v.clear();
    assert!(v.is_empty());
}

#[test]
fn literal_construction() {
    let v = StaticVec::from_array([10u8, 20, 30]);
    assert_eq!(v.capacity(), 3);
    assert_eq!(v.len(), 3);
    assert_eq!(v.as_slice(), &[10, 20, 30]);
}

#[test]
fn literal_construction_evaluates_once_in_order() {
    let mut calls: Vec<u32> = Vec::new();
    let mut next = |x: u32| {
        calls.push(x);
        x * 2
    };
    let v = StaticVec::from_array([next(1), next(2), next(3), next(4)]);
    assert_eq!(calls, vec![1, 2, 3, 4]);
    assert_eq!(v.capacity(), 4);
    assert_eq!(v.as_slice(), &[2, 4, 6, 8]);
}

#[test]
fn literal_construction_moves_owned() {
    let v = StaticVec::from_array(["x".to_string(), "y".to_string()]);
    assert_eq!(v.as_slice(), &["x".to_string(), "y".to_string()]);
}

#[test]
fn repeat_construction() {
    let v = new_from_value::<u16, 5>(7);
    assert_eq!(v.len(), 5);
    assert_eq!(v.capacity(), 5);
    assert_eq!(v.as_slice(), &[7, 7, 7, 7, 7]);
}

#[test]
fn repeat_construction_zero() {
    let v = new_from_value::<u16, 0>(7);
    assert_eq!(v.len(), 0);
}

#[test]
fn slice_round_trip() {
    let src = [3u32, 1, 4, 1, 5];
    let v = StaticVec::<u32, 8>::new_from_slice(&src);
    assert_eq!(v.len(), 5);
    for i in 0..5 {
        assert_eq!(v.get(i), Some(&src[i]));
    }
    assert_eq!(v.as_slice(), &src);
}

#[test]
fn slice_longer_than_capacity_is_cut() {
    let v = StaticVec::<u32, 3>::new_from_slice(&[1, 2, 3, 4, 5]);
    assert_eq!(v.as_slice(), &[1, 2, 3]);
    let w = StaticVec::<u32, 2>::new_from_array([9, 8, 7]);
    assert_eq!(w.as_slice(), &[9, 8]);
}
