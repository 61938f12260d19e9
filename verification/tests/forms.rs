use symplectic_opt::{identity_entries, j_form_entries, transpose};

fn product(a: &[Vec<i8>], b: &[Vec<i8>]) -> Vec<Vec<i64>> {
    let d = a.len();
    (0..d)
        .map(|i| {
            (0..d)
                .map(|k| (0..d).map(|j| a[i][j] as i64 * b[j][k] as i64).sum())
                .collect()
        })
        .collect()
}

fn narrow(m: Vec<Vec<i64>>) -> Vec<Vec<i8>> {
    m.into_iter()
        .map(|r| r.into_iter().map(|x| x as i8).collect())
        .collect()
}

fn widen(m: &[Vec<i8>]) -> Vec<Vec<i64>> {
    m.iter().map(|r| r.iter().map(|&x| x as i64).collect()).collect()
}

fn preserves_form(m: &Vec<Vec<i8>>, n: usize) -> bool {
    let j = j_form_entries(n);
    let mt = transpose(m, 2 * n);
    let mtj = narrow(product(&mt, &j));
    product(&mtj, m) == widen(&j)
}

#[test]
fn test_identity_is_symplectic() {
    let m = identity_entries(2);
    assert!(preserves_form(&m, 2));
}

#[test]
fn test_j_matrix_is_symplectic() {
    let j = j_form_entries(2);
    assert!(preserves_form(&j, 2));
}

#[test]
fn identity_entries_exact() {
    assert_eq!(identity_entries(1), vec![vec![1, 0], vec![0, 1]]);
    assert_eq!(identity_entries(0), Vec::<Vec<i8>>::new());
}

#[test]
fn j_form_entries_exact() {
    assert_eq!(j_form_entries(1), vec![vec![0, 1], vec![-1, 0]]);
    assert_eq!(
        j_form_entries(2),
        vec![
            vec![0, 0, 1, 0],
            vec![0, 0, 0, 1],
            vec![-1, 0, 0, 0],
            vec![0, -1, 0, 0],
        ]
    );
}

#[test]
fn j_is_antisymmetric() {
    let j = j_form_entries(3);
    let jt = transpose(&j, 6);
    for i in 0..6 {
        for k in 0..6 {
            assert_eq!(jt[i][k], -j[i][k]);
        }
    }
}

#[test]
fn j_squares_to_minus_identity() {
    let j = j_form_entries(3);
    let jj = product(&j, &j);
    let id = widen(&identity_entries(3));
    for i in 0..6 {
        for k in 0..6 {
            assert_eq!(jj[i][k], -id[i][k]);
        }
    }
}

#[test]
fn larger_identity_and_j_preserve_form() {
    for n in 0..5 {
        assert!(preserves_form(&identity_entries(n), n));
        assert!(preserves_form(&j_form_entries(n), n));
    }
}

#[test]
fn inverse_formula_inverts_a_shear() {
    // M = [[1, 1], [0, 1]] preserves J; J^T M^T J must be its inverse [[1, -1], [0, 1]].
    let m: Vec<Vec<i8>> = vec![vec![1, 1], vec![0, 1]];
    assert!(preserves_form(&m, 1));
    let j = j_form_entries(1);
    let jt = transpose(&j, 2);
    let mt = transpose(&m, 2);
    let inv = narrow(product(&narrow(product(&jt, &mt)), &j));
    assert_eq!(inv, vec![vec![1, -1], vec![0, 1]]);
    assert_eq!(narrow(product(&inv, &m)), identity_entries(1));
}

#[test]
fn non_symplectic_matrix_fails_the_exact_check() {
    let m: Vec<Vec<i8>> = vec![vec![2, 0], vec![0, 2]];
    assert!(!preserves_form(&m, 1));
}
