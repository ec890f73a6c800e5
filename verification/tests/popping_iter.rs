use vec_vec::VecVecExt;

#[test]
fn it_works() {
    let mut v = vec![vec![2, 3, 5], vec![], vec![7, 11, 13]];
    let mut iter = v.popping_iter();

    assert_eq!(iter.next(), Some(13));
    drop(iter);
    assert_eq!(v, vec![vec![2, 3, 5], vec![], vec![7, 11]]);

    let mut iter = v.popping_iter();
    assert_eq!(iter.next(), Some(11));
    assert_eq!(iter.container(), &vec![vec![2, 3, 5], vec![], vec![7]]);

    assert_eq!(iter.next(), Some(7));
    assert_eq!(iter.container(), &vec![vec![2, 3, 5], vec![], vec![]]);

    assert_eq!(iter.next(), Some(5));
    assert_eq!(iter.container(), &vec![vec![2, 3]]);

    assert_eq!(iter.next(), Some(3));
    assert_eq!(iter.container(), &vec![vec![2]]);

    assert_eq!(iter.next(), Some(2));
    assert_eq!(iter.container(), &vec![vec![]]);

    assert_eq!(iter.next(), None);
    assert_eq!(iter.container(), &Vec::<Vec<_>>::new());
}

fn popped(v: &mut Vec<Vec<i32>>) -> Vec<i32> {
    let mut iter = v.popping_iter();
    let mut out = Vec::new();
    while let Some(x) = iter.next() {
        out.push(x);
    }
    out
}

#[test]
fn popping_iter_yields_reversed_flattening_and_empties_outer() {
    let cases: Vec<Vec<Vec<i32>>> = vec![
        vec![],
        vec![vec![]],
        vec![vec![1]],
        vec![vec![], vec![1]],
        vec![vec![1], vec![]],
        vec![vec![], vec![], vec![1, 2], vec![], vec![3], vec![], vec![]],
        vec![vec![1, 2, 3], vec![4, 5], vec![6]],
    ];
    for case in &cases {
        let mut v = case.clone();
        let mut expected: Vec<i32> = case.iter().flatten().copied().collect();
        expected.reverse();
        assert_eq!(popped(&mut v), expected);
        assert_eq!(v, Vec::<Vec<i32>>::new());
    }
}

#[test]
fn popping_iter_for_empty_outer() {
    let mut v = Vec::<Vec<i32>>::new();
    let mut iter = v.popping_iter();
    assert_eq!(iter.next(), None);
    assert_eq!(iter.container(), &Vec::<Vec<i32>>::new());
}

#[test]
fn popping_iter_for_empty_inner() {
    let mut v: Vec<Vec<i32>> = vec![vec![], vec![], vec![]];
    let mut iter = v.popping_iter();
    assert_eq!(iter.next(), None);
    assert_eq!(iter.container(), &Vec::<Vec<i32>>::new());
    assert_eq!(iter.next(), None);
}

#[test]
fn popping_iter_removes_empties_behind_the_element() {
    let mut v = vec![vec![1, 2], vec![], vec![]];
    let mut iter = v.popping_iter();
    assert_eq!(iter.next(), Some(2));
    assert_eq!(iter.container(), &vec![vec![1]]);
}

#[test]
fn popping_iter_keeps_the_inner_it_emptied() {
    let mut v = vec![vec![1]];
    let mut iter = v.popping_iter();
    assert_eq!(iter.next(), Some(1));
    assert_eq!(iter.container(), &vec![Vec::<i32>::new()]);
    assert_eq!(iter.next(), None);
    assert_eq!(iter.container(), &Vec::<Vec<i32>>::new());
}

#[test]
fn popping_iter_leaves_no_empty_inner_after_a_second_element() {
    let mut v = vec![vec![1], vec![2, 3], vec![]];
    let mut iter = v.popping_iter();
    assert_eq!(iter.next(), Some(3));
    assert_eq!(iter.container(), &vec![vec![1], vec![2]]);
    assert!(iter.container().iter().all(|inner| !inner.is_empty()));
}

#[test]
fn popping_iter_leaves_empties_before_the_element() {
    let mut v = vec![vec![], vec![1, 2]];
    let mut iter = v.popping_iter();
    assert_eq!(iter.next(), Some(2));
    assert_eq!(iter.container(), &vec![vec![], vec![1]]);
}

#[test]
fn popping_iter_with_pushes_in_between() {
    let mut v = vec![vec![1, 2]];
    let mut iter = v.popping_iter();
    assert_eq!(iter.next(), Some(2));
    iter.container_mut().push(vec![7, 8]);
    assert_eq!(iter.next(), Some(8));
    assert_eq!(iter.next(), Some(7));
    assert_eq!(iter.container(), &vec![vec![1], vec![]]);
    assert_eq!(iter.next(), Some(1));
    assert_eq!(iter.next(), None);
    drop(iter);
    assert!(v.is_empty());
}
