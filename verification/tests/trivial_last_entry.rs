use vec_vec::VecVecExt;

#[test]
fn absent_for_empty_outer() {
    let mut v = Vec::<Vec<i32>>::new();
    assert!(v.trivial_last_entry().is_none());
    assert_eq!(v, Vec::<Vec<i32>>::new());
}

#[test]
fn absent_for_empty_last_inner() {
    let mut v: Vec<Vec<i32>> = vec![vec![2, 3, 5], vec![]];
    assert!(v.trivial_last_entry().is_none());
    assert_eq!(v, vec![vec![2, 3, 5], vec![]]);
}

#[test]
fn absent_for_only_empty_inner() {
    let mut v: Vec<Vec<i32>> = vec![vec![]];
    assert!(v.trivial_last_entry().is_none());
}

#[test]
fn present_reads_last_element() {
    let mut v = vec![vec![2, 3, 5], vec![], vec![7, 11, 13]];
    let entry = v.trivial_last_entry().unwrap();
    assert_eq!(*entry.get(), 13);
    assert!(!entry.is_last_in_inner());
    assert_eq!(entry.pop_pointee(), 13);
    assert_eq!(v, vec![vec![2, 3, 5], vec![], vec![7, 11]]);
}

#[test]
fn present_despite_empty_inner_before_last() {
    let mut v = vec![vec![], vec![4]];
    let entry = v.trivial_last_entry().unwrap();
    assert_eq!(*entry.get(), 4);
}

#[test]
fn dropped_handle_changes_nothing() {
    let mut v = vec![vec![1, 2], vec![3]];
    let entry = v.trivial_last_entry().unwrap();
    assert_eq!(*entry.get(), 3);
    drop(entry);
    assert_eq!(v, vec![vec![1, 2], vec![3]]);
}

#[test]
fn is_last_in_inner_for_single_element() {
    let mut v = vec![vec![1, 2], vec![3]];
    let entry = v.trivial_last_entry().unwrap();
    assert!(entry.is_last_in_inner());
}

#[test]
fn is_last_in_inner_false_for_two_elements() {
    let mut v = vec![vec![1, 2]];
    let entry = v.trivial_last_entry().unwrap();
    assert!(!entry.is_last_in_inner());
}

#[test]
fn pop_pointee_of_single_element_leaves_empty_inner() {
    let mut v = vec![vec![1, 2], vec![3]];
    let entry = v.trivial_last_entry().unwrap();
    assert_eq!(entry.pop_pointee(), 3);
    assert_eq!(v, vec![vec![1, 2], vec![]]);
    assert!(v.trivial_last_entry().is_none());
}

#[test]
fn get_mut_writes_last_element() {
    let mut v = vec![vec![2, 3, 5], vec![], vec![7, 11, 13]];
    let mut entry = v.trivial_last_entry().unwrap();
    *entry.get_mut() += 4;
    assert_eq!(*entry.get(), 17);
    drop(entry);
    assert_eq!(v, vec![vec![2, 3, 5], vec![], vec![7, 11, 17]]);
}

#[test]
fn push_to_outer_takes_non_empty() {
    let mut v = vec![vec![1]];
    let mut entry = v.trivial_last_entry().unwrap();
    assert_eq!(entry.push_to_outer(vec![8, 9]), Some(()));
    assert_eq!(*entry.get(), 9);
    assert!(!entry.is_last_in_inner());
    assert_eq!(entry.pop_pointee(), 9);
    assert_eq!(v, vec![vec![1], vec![8]]);
}

#[test]
fn push_to_outer_refuses_empty() {
    let mut v = vec![vec![1]];
    let mut entry = v.trivial_last_entry().unwrap();
    assert_eq!(entry.push_to_outer(Vec::new()), None);
    assert_eq!(*entry.get(), 1);
    drop(entry);
    assert_eq!(v, vec![vec![1]]);
}
