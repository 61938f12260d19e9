use symplectic_opt::pairwise_conserved;

#[test]
fn test_momentum_conservation() {
    let initial = [1.0, 2.0, 3.0];
    let close = |a: &f64, b: &f64| (a - b).abs() < 0.01;
    assert!(pairwise_conserved(&initial, &[1.0, 2.0, 3.0], close));
    assert!(!pairwise_conserved(&initial, &[1.0, 2.0, 4.0], close));
}

#[test]
fn length_mismatch_is_not_conserved() {
    let initial = [1.0, 2.0, 3.0];
    let always = |_: &f64, _: &f64| true;
    assert!(!pairwise_conserved(&initial, &[1.0, 2.0], always));
    assert!(!pairwise_conserved(&initial, &[1.0, 2.0, 3.0, 4.0], always));
    assert!(pairwise_conserved::<f64, _>(&[], &[], |_: &f64, _: &f64| false));
}

#[test]
fn small_drift_within_tolerance() {
    let initial = [0.0, -1.0];
    let close = |a: &f64, b: &f64| (a - b).abs() < 0.1;
    assert!(pairwise_conserved(&initial, &[0.05, -1.05], close));
    assert!(!pairwise_conserved(&initial, &[0.05, -1.2], close));
}
