use spx_vix_calibration::polynomial::{
    monomial_count, monomial_exponents, monomial_gradient, MonomialGradient, PartialTerm,
};

#[test]
fn count_matches_closed_form() {
    assert_eq!(monomial_count(0), 1);
    assert_eq!(monomial_count(1), 3);
    assert_eq!(monomial_count(2), 6);
    assert_eq!(monomial_count(8), 45);
}

#[test]
fn exponents_of_degree_two_in_column_order() {
    assert_eq!(
        monomial_exponents(2),
        vec![(0, 0), (0, 1), (0, 2), (1, 0), (1, 1), (2, 0)]
    );
}

#[test]
fn exponents_of_degree_zero() {
    assert_eq!(monomial_exponents(0), vec![(0, 0)]);
}

#[test]
fn exponents_length_equals_count() {
    for d in 0..12usize {
        assert_eq!(monomial_exponents(d).len(), monomial_count(d));
    }
}

#[test]
fn every_monomial_sits_at_its_column() {
    let d = 8usize;
    let basis = monomial_exponents(d);
    for k in 0..=d {
        for l in 0..=(d - k) {
            let col = k * (2 * d + 3 - k) / 2 + l;
            assert_eq!(basis[col], (k, l));
        }
    }
}

#[test]
fn exponents_strictly_increase() {
    let basis = monomial_exponents(6);
    for w in basis.windows(2) {
        assert!(w[0] < w[1]);
        assert!(w[0].0 + w[0].1 <= 6);
    }
}

#[test]
fn gradient_of_constant_vanishes() {
    assert_eq!(
        monomial_gradient(0, 0),
        MonomialGradient { along_x: None, along_y: None }
    );
}

#[test]
fn gradient_of_pure_y_power() {
    assert_eq!(
        monomial_gradient(0, 3),
        MonomialGradient {
            along_x: None,
            along_y: Some(PartialTerm { coeff: 3, x_exp: 0, y_exp: 2 }),
        }
    );
}

#[test]
fn gradient_of_pure_x_power() {
    assert_eq!(
        monomial_gradient(4, 0),
        MonomialGradient {
            along_x: Some(PartialTerm { coeff: 4, x_exp: 3, y_exp: 0 }),
            along_y: None,
        }
    );
}

#[test]
fn gradient_of_mixed_monomial() {
    assert_eq!(
        monomial_gradient(2, 3),
        MonomialGradient {
            along_x: Some(PartialTerm { coeff: 2, x_exp: 1, y_exp: 3 }),
            along_y: Some(PartialTerm { coeff: 3, x_exp: 2, y_exp: 2 }),
        }
    );
}

fn term(t: Option<PartialTerm>, x: i64, y: i64) -> i64 {
    match t {
        Some(t) => t.coeff as i64 * x.pow(t.x_exp as u32) * y.pow(t.y_exp as u32),
        None => 0,
    }
}

#[test]
fn gradient_satisfies_euler_identity() {
    let (x, y) = (3i64, -5i64);
    for k in 0..4usize {
        for l in 0..4usize {
            let g = monomial_gradient(k, l);
            let m = x.pow(k as u32) * y.pow(l as u32);
            assert_eq!(x * term(g.along_x, x, y), k as i64 * m);
            assert_eq!(y * term(g.along_y, x, y), l as i64 * m);
        }
    }
}
