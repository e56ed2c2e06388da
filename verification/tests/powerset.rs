use cargo_hack::features::powerset;

#[test]
fn powerset_full() {
    let v = powerset(vec![1, 2, 3, 4], None);
    assert_eq!(
        v,
        vec![
            vec![],
            vec![1],
            vec![2],
            vec![1, 2],
            vec![3],
            vec![1, 3],
            vec![2, 3],
            vec![1, 2, 3],
            vec![4],
            vec![1, 4],
            vec![2, 4],
            vec![1, 2, 4],
            vec![3, 4],
            vec![1, 3, 4],
            vec![2, 3, 4],
            vec![1, 2, 3, 4],
        ]
    );
}

#[test]
fn powerset_depth1() {
    let v = powerset(vec![1, 2, 3, 4], Some(1));
    assert_eq!(v, vec![vec![], vec![1], vec![2], vec![3], vec![4],]);
}

#[test]
fn powerset_depth2() {
    let v = powerset(vec![1, 2, 3, 4], Some(2));
    assert_eq!(
        v,
        vec![
            vec![],
            vec![1],
            vec![2],
            vec![1, 2],
            vec![3],
            vec![1, 3],
            vec![2, 3],
            vec![4],
            vec![1, 4],
            vec![2, 4],
            vec![3, 4],
        ]
    );
}

#[test]
fn powerset_depth3() {
    let v = powerset(vec![1, 2, 3, 4], Some(3));
    assert_eq!(
        v,
        vec![
            vec![],
            vec![1],
            vec![2],
            vec![1, 2],
            vec![3],
            vec![1, 3],
            vec![2, 3],
            vec![1, 2, 3],
            vec![4],
            vec![1, 4],
            vec![2, 4],
            vec![1, 2, 4],
            vec![3, 4],
            vec![1, 3, 4],
            vec![2, 3, 4],
        ]
    );
}

#[test]
fn powerset_empty() {
    let v = powerset(Vec::<i32>::new(), None);
    assert_eq!(v, vec![Vec::<i32>::new()]);
}

#[test]
fn powerset_depth_zero_keeps_empty() {
    let v = powerset(vec![1, 2, 3], Some(0));
    assert_eq!(v, vec![Vec::<i32>::new()]);
}

#[test]
fn powerset_features_matches_generic() {
    let names: Vec<String> = vec!["a".to_string(), "b".to_string()];
    let v = cargo_hack::features::powerset_features(&names, None);
    let expected: Vec<Vec<String>> = vec![
        vec![],
        vec!["a".to_string()],
        vec!["b".to_string()],
        vec!["a".to_string(), "b".to_string()],
    ];
    assert_eq!(v, expected);
}
