use nyx_space::dormand::{Dormand45, Dormand78, Ratio, RK};

fn sum(row: &[Ratio]) -> f64 {
    row.iter().map(|r| r.num as f64 / r.den as f64).sum()
}

#[test]
fn dormand45_has_seven_stages() {
    assert_eq!(Dormand45::order(), 5);
    assert_eq!(Dormand45::stages(), 7);
    assert_eq!(Dormand45::a_coeffs().len(), 21);
    assert_eq!(Dormand45::b_coeffs().len(), 14);
}

#[test]
fn dormand78_has_thirteen_stages() {
    assert_eq!(Dormand78::order(), 8);
    assert_eq!(Dormand78::stages(), 13);
    assert_eq!(Dormand78::a_coeffs().len(), 78);
    assert_eq!(Dormand78::b_coeffs().len(), 26);
}

#[test]
fn dormand45_coefficients() {
    let a = Dormand45::a_coeffs();
    assert_eq!(a[0], Ratio { num: 1, den: 5 });
    assert_eq!(a[4], Ratio { num: -56, den: 15 });
    assert_eq!(a[20], Ratio { num: 11, den: 84 });
    let b = Dormand45::b_coeffs();
    assert_eq!(b[0], Ratio { num: 35, den: 384 });
    assert_eq!(b[4], Ratio { num: -2187, den: 6784 });
    assert_eq!(b[13], Ratio { num: 1, den: 40 });
}

#[test]
fn dormand78_coefficients() {
    let a = Dormand78::a_coeffs();
    assert_eq!(a[0], Ratio { num: 1, den: 18 });
    assert_eq!(a[8], Ratio { num: -75, den: 64 });
    assert_eq!(a[39], Ratio { num: -37_695_042_795, den: 15_268_766_246 });
    assert_eq!(a[77], Ratio { num: 0, den: 1 });
    let b = Dormand78::b_coeffs();
    assert_eq!(b[0], Ratio { num: 14_005_451, den: 335_480_064 });
    assert_eq!(b[12], Ratio { num: 1, den: 4 });
    assert_eq!(b[24], Ratio { num: 2, den: 45 });
}

#[test]
fn denominators_are_positive() {
    for r in Dormand45::a_coeffs().iter().chain(Dormand45::b_coeffs().iter()) {
        assert!(r.den > 0);
    }
    for r in Dormand78::a_coeffs().iter().chain(Dormand78::b_coeffs().iter()) {
        assert!(r.den > 0);
    }
}

#[test]
fn weights_add_up_to_one() {
    let b = Dormand45::b_coeffs();
    assert!((sum(&b[..7]) - 1.0).abs() < 1e-15);
    assert!((sum(&b[7..]) - 1.0).abs() < 1e-15);
    let b = Dormand78::b_coeffs();
    assert!((sum(&b[..13]) - 1.0).abs() < 1e-9);
    assert!((sum(&b[13..]) - 1.0).abs() < 1e-9);
}

#[test]
fn rows_of_dormand45_add_up_to_the_nodes() {
    let a = Dormand45::a_coeffs();
    let nodes = [0.2, 0.3, 0.8, 8.0 / 9.0, 1.0, 1.0];
    let mut k = 0;
    for (stage, node) in nodes.iter().enumerate() {
        let row = &a[k..k + stage + 1];
        assert!((sum(row) - node).abs() < 1e-14);
        k += stage + 1;
    }
    assert_eq!(k, a.len());
}
