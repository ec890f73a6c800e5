use vec_vec::VecVecExt;

#[test]
fn lending_iter_mut_general_case() {
    let mut v = vec![vec![2, 3, 5], vec![], vec![7, 11, 13]];
    let mut iter = v.lending_iter_mut();

    while let Some(x) = iter.next() {
        *x += 1;
    }

    assert_eq!(v, vec![vec![3, 4, 6], vec![], vec![8, 12, 14]]);
}

#[test]
fn lending_iter_mut_for_empty_outer() {
    let mut v = Vec::<Vec<i32>>::new();
    let mut iter = v.lending_iter_mut();

    while let Some(x) = iter.next() {
        *x += 1;
    }

    assert_eq!(v, Vec::<Vec<i32>>::new());
}

#[test]
fn lending_iter_mut_for_empty_inner() {
    let mut v: Vec<Vec<i32>> = vec![vec![], vec![], vec![]];
    let mut iter = v.lending_iter_mut();

    while let Some(x) = iter.next() {
        *x += 1;
    }

    assert_eq!(v, vec![vec![], vec![], vec![]]);
}

#[test]
fn lending_iter_mut_keeps_shape() {
    let cases: Vec<Vec<Vec<i32>>> = vec![
        vec![],
        vec![vec![]],
        vec![vec![], vec![1]],
        vec![vec![1], vec![]],
        vec![vec![], vec![], vec![1, 2], vec![], vec![3], vec![], vec![]],
    ];
    for case in &cases {
        let mut v = case.clone();
        let mut iter = v.lending_iter_mut();
        while let Some(x) = iter.next() {
            *x += 1;
        }
        let expected: Vec<Vec<i32>> = case
            .iter()
            .map(|inner| inner.iter().map(|x| x + 1).collect())
            .collect();
        assert_eq!(v, expected);
    }
}

#[test]
fn lending_iter_mut_lends_in_order() {
    let mut v = vec![vec![], vec![2, 3], vec![], vec![5]];
    let mut iter = v.lending_iter_mut();
    assert_eq!(iter.next(), Some(&mut 2));
    assert_eq!(iter.next(), Some(&mut 3));
    assert_eq!(iter.next(), Some(&mut 5));
    assert_eq!(iter.next(), None);
    assert_eq!(iter.next(), None);
}

#[test]
fn lending_iter_mut_writes_one_element() {
    let mut v = vec![vec![2, 3, 5], vec![], vec![7, 11, 13]];
    let mut iter = v.lending_iter_mut();
    iter.next();
    iter.next();
    iter.next();
    *iter.next().unwrap() = 70;
    assert_eq!(iter.container(), &vec![vec![2, 3, 5], vec![], vec![70, 11, 13]]);
    drop(iter);
    assert_eq!(v, vec![vec![2, 3, 5], vec![], vec![70, 11, 13]]);
}

#[test]
fn lending_iter_mut_container_mut_reaches_the_structure() {
    let mut v = vec![vec![1], vec![2]];
    let mut iter = v.lending_iter_mut();
    assert_eq!(iter.next(), Some(&mut 1));
    iter.container_mut()[1][0] = 20;
    assert!(iter.is_valid());
    assert_eq!(iter.next(), Some(&mut 20));
    assert_eq!(iter.next(), None);
}

#[test]
fn lending_iter_mut_is_valid_tells_a_resize() {
    let mut v = vec![vec![1, 2], vec![3]];
    let mut iter = v.lending_iter_mut();
    assert!(iter.is_valid());
    assert_eq!(iter.next(), Some(&mut 1));
    assert!(iter.is_valid());
    iter.container_mut()[0].pop();
    assert!(!iter.is_valid());
    iter.container_mut()[0].push(9);
    assert!(iter.is_valid());
    assert_eq!(iter.next(), Some(&mut 9));
    iter.container_mut().clear();
    assert!(!iter.is_valid());
}

#[test]
fn lending_iter_mut_is_valid_when_exhausted() {
    let mut v = vec![vec![1]];
    let mut iter = v.lending_iter_mut();
    assert_eq!(iter.next(), Some(&mut 1));
    assert_eq!(iter.next(), None);
    iter.container_mut().clear();
    assert!(iter.is_valid());
    assert_eq!(iter.next(), None);
}
