//! The two-variable polynomial basis used by the VIX regression.
//!
//! The regression matrix has one row per simulated path and one column per
//! monomial `x^k * y^l` with `k + l <= degree`.  Columns are ordered by `k`
//! first and `l` second: `(0,0), (0,1), ..., (0,d), (1,0), ..., (d,0)`.
use vstd::prelude::*;

verus! {

/// The exponents `(k, l)` of the monomials whose power of `x` is `k`, in
/// column order: `(k, 0), (k, 1), ..., (k, d - k)`.
pub open spec fn block(k: nat, d: nat) -> Seq<(nat, nat)> {
    if k <= d {
        Seq::new((d + 1 - k) as nat, |l: int| (k, l as nat))
    } else {
        Seq::empty()
    }
}

/// The columns whose power of `x` is below `k`.
pub open spec fn basis_upto(k: nat, d: nat) -> Seq<(nat, nat)>
    decreases k,
{
    if k == 0 {
        Seq::empty()
    } else {
        basis_upto((k - 1) as nat, d) + block((k - 1) as nat, d)
    }
}

/// All monomial exponents of total degree at most `d`, in column order.
pub open spec fn monomial_basis(d: nat) -> Seq<(nat, nat)> {
    basis_upto(d + 1, d)
}

/// The number of monomials of total degree at most `d`.
pub open spec fn monomial_count_spec(d: nat) -> nat {
    (d + 1) * (d + 2) / 2
}

/// The column of the monomial `x^k * y^l` in a basis of degree `d`.
pub open spec fn column_of(k: nat, l: nat, d: nat) -> nat {
    (k * (2 * d + 3 - k) / 2) as nat + l
}

/// Strict lexicographic order on exponent pairs.
pub open spec fn lex_lt(a: (nat, nat), b: (nat, nat)) -> bool {
    a.0 < b.0 || (a.0 == b.0 && a.1 < b.1)
}

/// Exponent pairs of machine integers, seen as pairs of naturals.
pub open spec fn exponent_view(v: Seq<(usize, usize)>) -> Seq<(nat, nat)> {
    v.map_values(|p: (usize, usize)| (p.0 as nat, p.1 as nat))
}

/// The degree bound under which the basis size can be computed in a `usize`.
pub open spec fn degree_fits(degree: usize) -> bool {
    (degree + 1) * (degree + 2) <= usize::MAX
}

proof fn lemma_degree_fits(degree: usize)
    requires
        degree_fits(degree),
    ensures
        degree + 2 <= usize::MAX,
        (degree + 1) * (degree + 2) <= usize::MAX,
{
    assert((degree + 1) * (degree + 2) >= degree + 2) by (nonlinear_arith)
        requires
            degree >= 0,
    ;
}

proof fn lemma_basis_upto_len(k: nat, d: nat)
    requires
        k <= d + 1,
    ensures
        2 * basis_upto(k, d).len() == k * (2 * d + 3 - k),
    decreases k,
{
    if k > 0 {
        lemma_basis_upto_len((k - 1) as nat, d);
        let j = (k - 1) as nat;
        assert(block(j, d).len() == d + 1 - j);
        assert(basis_upto(k, d).len() == basis_upto(j, d).len() + block(j, d).len());
        let a: int = j as int * (2 * d + 3 - j);
        let b: int = k as int * (2 * d + 3 - k);
        assert(a + 2 * (d + 1 - j) == b) by (nonlinear_arith)
            requires
                j + 1 == k,
                k <= d + 1,
                a == j as int * (2 * d + 3 - j),
                b == k as int * (2 * d + 3 - k),
        ;
    } else {
        assert(k * (2 * d + 3 - k) == 0) by (nonlinear_arith)
            requires
                k == 0,
        ;
    }
}

proof fn lemma_basis_upto_first_below(k: nat, d: nat)
    ensures
        forall|i: int| 0 <= i < basis_upto(k, d).len() ==> #[trigger] basis_upto(k, d)[i].0 < k,
        forall|i: int|
            0 <= i < basis_upto(k, d).len() ==> basis_upto(k, d)[i].0 + #[trigger] basis_upto(
                k,
                d,
            )[i].1 <= d,
    decreases k,
{
    if k > 0 {
        let j = (k - 1) as nat;
        lemma_basis_upto_first_below(j, d);
        let prev = basis_upto(j, d);
        let cur = basis_upto(k, d);
        assert forall|i: int| 0 <= i < cur.len() implies #[trigger] cur[i].0 < k && cur[i].0
            + cur[i].1 <= d by {
            if i < prev.len() {
                assert(cur[i] == prev[i]);
            } else {
                assert(cur[i] == block(j, d)[i - prev.len()]);
            }
        }
    }
}

proof fn lemma_basis_upto_prefix(j: nat, k: nat, d: nat)
    requires
        j <= k,
    ensures
        basis_upto(j, d).len() <= basis_upto(k, d).len(),
        basis_upto(k, d).subrange(0, basis_upto(j, d).len() as int) =~= basis_upto(j, d),
    decreases k,
{
    if j < k {
        lemma_basis_upto_prefix(j, (k - 1) as nat, d);
        let prev = basis_upto((k - 1) as nat, d);
        assert(basis_upto(k, d).subrange(0, prev.len() as int) =~= prev);
    }
}

proof fn lemma_basis_upto_sorted(k: nat, d: nat)
    ensures
        forall|i: int, j: int|
            0 <= i < j < basis_upto(k, d).len() ==> lex_lt(
                #[trigger] basis_upto(k, d)[i],
                #[trigger] basis_upto(k, d)[j],
            ),
    decreases k,
{
    if k > 0 {
        let j0 = (k - 1) as nat;
        lemma_basis_upto_sorted(j0, d);
        lemma_basis_upto_first_below(j0, d);
        let prev = basis_upto(j0, d);
        let cur = basis_upto(k, d);
        assert forall|i: int, j: int| 0 <= i < j < cur.len() implies lex_lt(
            #[trigger] cur[i],
            #[trigger] cur[j],
        ) by {
            if j < prev.len() {
                assert(cur[i] == prev[i]);
                assert(cur[j] == prev[j]);
            } else if i < prev.len() {
                assert(cur[i] == prev[i]);
                assert(prev[i].0 < j0);
            }
        }
    }
}

/// The basis has `(d + 1) * (d + 2) / 2` monomials.
pub proof fn basis_size(d: nat)
    ensures
        monomial_basis(d).len() == monomial_count_spec(d),
        2 * monomial_basis(d).len() == (d + 1) * (d + 2),
{
    lemma_basis_upto_len(d + 1, d);
    assert((d + 1) * (2 * d + 3 - (d + 1)) == (d + 1) * (d + 2));
}

/// Every monomial of the basis has total degree at most `d`.
pub proof fn basis_within_degree(d: nat)
    ensures
        forall|i: int|
            0 <= i < monomial_basis(d).len() ==> monomial_basis(d)[i].0 + #[trigger] monomial_basis(
                d,
            )[i].1 <= d,
{
    lemma_basis_upto_first_below(d + 1, d);
}

/// The columns are in strictly increasing lexicographic order, so no
/// monomial occurs twice.
pub proof fn basis_strictly_sorted(d: nat)
    ensures
        forall|i: int, j: int|
            0 <= i < j < monomial_basis(d).len() ==> lex_lt(
                #[trigger] monomial_basis(d)[i],
                #[trigger] monomial_basis(d)[j],
            ),
        monomial_basis(d).no_duplicates(),
{
    lemma_basis_upto_sorted(d + 1, d);
    let b = monomial_basis(d);
    assert forall|i: int, j: int| 0 <= i < b.len() && 0 <= j < b.len() && i != j implies b[i]
        != b[j] by {
        if i < j {
            assert(lex_lt(b[i], b[j]));
        } else {
            assert(lex_lt(b[j], b[i]));
        }
    }
}

/// Every monomial `x^k * y^l` with `k + l <= d` stands in the basis, at the
/// column `k * (2d + 3 - k) / 2 + l`.
pub proof fn basis_position(k: nat, l: nat, d: nat)
    requires
        k + l <= d,
    ensures
        column_of(k, l, d) < monomial_basis(d).len(),
        monomial_basis(d)[column_of(k, l, d) as int] == (k, l),
{
    lemma_basis_upto_len(k, d);
    lemma_basis_upto_len(k + 1, d);
    lemma_basis_upto_len(d + 1, d);
    assert(basis_upto(k, d).len() == k * (2 * d + 3 - k) / 2);
    lemma_basis_upto_prefix(k + 1, d + 1, d);
    let upto = basis_upto(k + 1, d);
    let pos = basis_upto(k, d).len() + l;
    assert(upto[pos as int] == (k, l));
    assert(monomial_basis(d).subrange(0, upto.len() as int)[pos as int] == upto[pos as int]);
}

/// The number of columns of the regression matrix of the given degree.
pub fn monomial_count(degree: usize) -> (m: usize)
    requires
        degree_fits(degree),
    ensures
        m as nat == monomial_count_spec(degree as nat),
        m as nat == monomial_basis(degree as nat).len(),
        2 * m == (degree + 1) * (degree + 2),
{
    proof {
        lemma_degree_fits(degree);
        basis_size(degree as nat);
    }
    (degree + 1) * (degree + 2) / 2
}

/// The exponents `(k, l)` of the columns of the regression matrix, in
/// column order.
pub fn monomial_exponents(degree: usize) -> (basis: Vec<(usize, usize)>)
    requires
        degree_fits(degree),
    ensures
        exponent_view(basis@) == monomial_basis(degree as nat),
        2 * basis.len() == (degree + 1) * (degree + 2),
        forall|i: int| 0 <= i < basis.len() ==> #[trigger] basis[i].0 + basis[i].1 <= degree,
        forall|i: int, j: int|
            0 <= i < j < basis.len() ==> (#[trigger] basis[i]).0 < (#[trigger] basis[j]).0 || (
            basis[i].0 == basis[j].0 && basis[i].1 < basis[j].1),
        forall|k: nat, l: nat|
            k + l <= degree ==> #[trigger] column_of(k, l, degree as nat) < basis.len() && basis[column_of(
                k,
                l,
                degree as nat,
            ) as int] == (k as usize, l as usize),
{
    proof {
        lemma_degree_fits(degree);
    }
    let ghost d = degree as nat;
    let mut basis: Vec<(usize, usize)> = Vec::new();
    let mut k: usize = 0;
    while k <= degree
        invariant
            k <= degree + 1,
            degree + 2 <= usize::MAX,
            d == degree as nat,
            exponent_view(basis@) == basis_upto(k as nat, d),
        decreases degree + 1 - k,
    {
        let mut l: usize = 0;
        while l <= degree - k
            invariant
                k <= degree,
                l <= degree - k + 1,
                degree + 2 <= usize::MAX,
                d == degree as nat,
                exponent_view(basis@) == basis_upto(k as nat, d) + block(k as nat, d).take(
                    l as int,
                ),
            decreases degree - k + 1 - l,
        {
            let ghost before = basis@;
            basis.push((k, l));
            proof {
                assert(block(k as nat, d).take(l + 1) =~= block(k as nat, d).take(l as int).push(
                    (k as nat, l as nat),
                ));
                assert(exponent_view(basis@) =~= exponent_view(before).push((k as nat, l as nat)));
            }
            l = l + 1;
        }
        proof {
            assert(block(k as nat, d).take(l as int) =~= block(k as nat, d));
            assert(basis_upto((k + 1) as nat, d) == basis_upto(k as nat, d) + block(k as nat, d));
        }
        k = k + 1;
    }
    proof {
        let b = monomial_basis(d);
        basis_size(d);
        basis_within_degree(d);
        basis_strictly_sorted(d);
        assert(basis@.len() == b.len());
        assert forall|i: int| 0 <= i < basis.len() implies #[trigger] basis[i].0 + basis[i].1
            <= degree by {
            assert(exponent_view(basis@)[i] == b[i]);
        }
        assert forall|i: int, j: int| 0 <= i < j < basis.len() implies (#[trigger] basis[i]).0 < (
        #[trigger] basis[j]).0 || (basis[i].0 == basis[j].0 && basis[i].1 < basis[j].1) by {
            assert(exponent_view(basis@)[i] == b[i]);
            assert(exponent_view(basis@)[j] == b[j]);
            assert(lex_lt(b[i], b[j]));
        }
        assert forall|k: nat, l: nat| k + l <= degree implies #[trigger] column_of(
            k,
            l,
            degree as nat,
        ) < basis.len() && basis[column_of(k, l, degree as nat) as int] == (
            k as usize,
            l as usize,
        ) by {
            basis_position(k, l, d);
            let c = column_of(k, l, d) as int;
            assert(exponent_view(basis@)[c] == b[c]);
        }
    }
    basis
}

/// One term of a partial derivative of a monomial:
/// `coeff * x^x_exp * y^y_exp`.
#[derive(Clone, Copy, Debug, PartialEq, Eq, Structural)]
pub struct PartialTerm {
    pub coeff: usize,
    pub x_exp: usize,
    pub y_exp: usize,
}

/// The partial derivatives of a monomial `x^k * y^l`; a missing term is a
/// derivative that vanishes.
#[derive(Clone, Copy, Debug, PartialEq, Eq, Structural)]
pub struct MonomialGradient {
    pub along_x: Option<PartialTerm>,
    pub along_y: Option<PartialTerm>,
}

/// `d/dx (x^k * y^l) = k * x^(k-1) * y^l`, absent when `k == 0`.
pub open spec fn x_partial(k: usize, l: usize) -> Option<PartialTerm> {
    if k == 0 {
        None
    } else {
        Some(PartialTerm { coeff: k, x_exp: (k - 1) as usize, y_exp: l })
    }
}

/// `d/dy (x^k * y^l) = l * x^k * y^(l-1)`, absent when `l == 0`.
pub open spec fn y_partial(k: usize, l: usize) -> Option<PartialTerm> {
    if l == 0 {
        None
    } else {
        Some(PartialTerm { coeff: l, x_exp: k, y_exp: (l - 1) as usize })
    }
}

/// The value of a derivative term at integer coordinates (a vanishing term is 0).
pub open spec fn term_value(t: Option<PartialTerm>, x: int, y: int) -> int {
    match t {
        Some(t) => t.coeff * (vstd::arithmetic::power::pow(x, t.x_exp as nat) * vstd::arithmetic::power::pow(
            y,
            t.y_exp as nat,
        )),
        None => 0,
    }
}

/// The value of the monomial `x^k * y^l` at integer coordinates.
pub open spec fn monomial_value(k: nat, l: nat, x: int, y: int) -> int {
    vstd::arithmetic::power::pow(x, k) * vstd::arithmetic::power::pow(y, l)
}

/// The partial derivatives of the monomial `x^k * y^l` with respect to `x`
/// and to `y`.
pub fn monomial_gradient(k: usize, l: usize) -> (g: MonomialGradient)
    ensures
        g.along_x == x_partial(k, l),
        g.along_y == y_partial(k, l),
        g.along_x is None <==> k == 0,
        g.along_x matches Some(t) ==> t.coeff == k && t.x_exp + 1 == k && t.y_exp == l,
        g.along_y is None <==> l == 0,
        g.along_y matches Some(t) ==> t.coeff == l && t.x_exp == k && t.y_exp + 1 == l,
{
    let along_x = if k == 0 {
        None
    } else {
        Some(PartialTerm { coeff: k, x_exp: k - 1, y_exp: l })
    };
    let along_y = if l == 0 {
        None
    } else {
        Some(PartialTerm { coeff: l, x_exp: k, y_exp: l - 1 })
    };
    MonomialGradient { along_x, along_y }
}

/// The derivative terms are the derivatives of the monomial, checked through
/// Euler's identities: `x * d/dx m == k * m` and `y * d/dy m == l * m`, so
/// that `x * d/dx m + y * d/dy m == (k + l) * m`.
pub proof fn gradient_euler_identity(k: usize, l: usize, x: int, y: int)
    ensures
        x * term_value(x_partial(k, l), x, y) == k * monomial_value(k as nat, l as nat, x, y),
        y * term_value(y_partial(k, l), x, y) == l * monomial_value(k as nat, l as nat, x, y),
        x * term_value(x_partial(k, l), x, y) + y * term_value(y_partial(k, l), x, y) == (k + l)
            * monomial_value(k as nat, l as nat, x, y),
{
    reveal(vstd::arithmetic::power::pow);
    let px = vstd::arithmetic::power::pow(x, k as nat);
    let py = vstd::arithmetic::power::pow(y, l as nat);
    let m = monomial_value(k as nat, l as nat, x, y);
    let tx = term_value(x_partial(k, l), x, y);
    let ty = term_value(y_partial(k, l), x, y);
    assert(m == px * py);
    if k > 0 {
        let qx = vstd::arithmetic::power::pow(x, (k - 1) as nat);
        assert(px == x * qx);
        assert(tx == k * (qx * py));
        assert(x * (k * (qx * py)) == k * ((x * qx) * py)) by (nonlinear_arith);
    } else {
        assert(x * tx == k * m) by (nonlinear_arith)
            requires
                k == 0,
                tx == 0,
        ;
    }
    if l > 0 {
        let qy = vstd::arithmetic::power::pow(y, (l - 1) as nat);
        assert(py == y * qy);
        assert(ty == l * (px * qy));
        assert(y * (l * (px * qy)) == l * (px * (y * qy))) by (nonlinear_arith);
    } else {
        assert(y * ty == l * m) by (nonlinear_arith)
            requires
                l == 0,
                ty == 0,
        ;
    }
    assert(k * m + l * m == (k + l) * m) by (nonlinear_arith);
}

/// The derivative terms of a basis monomial are themselves monomials of the
/// basis, one degree lower.
pub proof fn gradient_stays_in_basis(k: usize, l: usize, d: nat)
    requires
        k + l <= d,
    ensures
        x_partial(k, l) matches Some(t) ==> t.x_exp + t.y_exp + 1 == k + l
            && monomial_basis(d)[column_of(t.x_exp as nat, t.y_exp as nat, d) as int] == (
            t.x_exp as nat,
            t.y_exp as nat,
        ),
        y_partial(k, l) matches Some(t) ==> t.x_exp + t.y_exp + 1 == k + l
            && monomial_basis(d)[column_of(t.x_exp as nat, t.y_exp as nat, d) as int] == (
            t.x_exp as nat,
            t.y_exp as nat,
        ),
{
    if k > 0 {
        basis_position((k - 1) as nat, l as nat, d);
    }
    if l > 0 {
        basis_position(k as nat, (l - 1) as nat, d);
    }
}

} // verus!
