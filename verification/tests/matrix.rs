use symplectic_opt::transpose;

#[test]
fn transpose_swaps_indices() {
    let m = vec![vec![1.0, 0.5], vec![0.0, 1.0]];
    let t = transpose(&m, 2);
    assert_eq!(t, vec![vec![1.0, 0.0], vec![0.5, 1.0]]);
}

#[test]
fn transpose_is_an_involution() {
    let m = vec![
        vec![1.0, 2.0, 3.0, 4.0],
        vec![5.0, 6.0, 7.0, 8.0],
        vec![9.0, 10.0, 11.0, 12.0],
        vec![13.0, 14.0, 15.0, 16.0],
    ];
    assert_eq!(transpose(&transpose(&m, 4), 4), m);
}

#[test]
fn transpose_takes_leading_block() {
    let m = vec![vec![1, 2, 3], vec![4, 5, 6], vec![7, 8, 9]];
    assert_eq!(transpose(&m, 2), vec![vec![1, 4], vec![2, 5]]);
    assert_eq!(transpose(&m, 0), Vec::<Vec<i32>>::new());
}
