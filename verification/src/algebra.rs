use vstd::prelude::*;
use vstd::arithmetic::mul::{
    lemma_mul_is_associative, lemma_mul_is_distributive_add,
    lemma_mul_is_distributive_add_other_way,
};
use crate::matrix::{dot, mat_mul, neg_of};

verus! {

/// The sum of `f(j)` over `0 <= j < n`.
pub open spec fn sum_to(f: spec_fn(int) -> int, n: nat) -> int
    decreases n,
{
    if n == 0 {
        0
    } else {
        sum_to(f, (n - 1) as nat) + f(n - 1)
    }
}

/// Sums of functions that agree on the summation range are equal.
pub proof fn lemma_sum_ext(f: spec_fn(int) -> int, g: spec_fn(int) -> int, n: nat)
    requires
        forall|j: int| 0 <= j < n ==> #[trigger] f(j) == g(j),
    ensures
        sum_to(f, n) == sum_to(g, n),
    decreases n,
{
    if n > 0 {
        lemma_sum_ext(f, g, (n - 1) as nat);
    }
}

/// A sum of zeros is zero.
pub proof fn lemma_sum_zero(f: spec_fn(int) -> int, n: nat)
    requires
        forall|j: int| 0 <= j < n ==> #[trigger] f(j) == 0,
    ensures
        sum_to(f, n) == 0,
    decreases n,
{
    if n > 0 {
        lemma_sum_zero(f, (n - 1) as nat);
    }
}

/// The pointwise sum of two functions.
pub open spec fn plus(f: spec_fn(int) -> int, g: spec_fn(int) -> int) -> spec_fn(int) -> int {
    |j: int| f(j) + g(j)
}

/// `l ↦ f(l, j)` for a fixed `j`.
pub open spec fn column(f: spec_fn(int, int) -> int, j: int) -> spec_fn(int) -> int {
    |l: int| f(l, j)
}

/// `l ↦ Σ_{j < cols} f(l, j)`.
pub open spec fn row_total(f: spec_fn(int, int) -> int, cols: nat) -> spec_fn(int) -> int {
    |l: int| sum_to(|j: int| f(l, j), cols)
}

/// `j ↦ Σ_{l < rows} f(l, j)`.
pub open spec fn col_total(f: spec_fn(int, int) -> int, rows: nat) -> spec_fn(int) -> int {
    |j: int| sum_to(column(f, j), rows)
}

/// The sum of a pointwise sum is the sum of the sums.
pub proof fn lemma_sum_add(f: spec_fn(int) -> int, g: spec_fn(int) -> int, n: nat)
    ensures
        sum_to(plus(f, g), n) == sum_to(f, n) + sum_to(g, n),
    decreases n,
{
    if n > 0 {
        lemma_sum_add(f, g, (n - 1) as nat);
    }
}

/// A constant factor moves out of a sum.
pub proof fn lemma_sum_scale(c: int, f: spec_fn(int) -> int, n: nat)
    ensures
        sum_to(|j: int| c * f(j), n) == c * sum_to(f, n),
    decreases n,
{
    if n > 0 {
        lemma_sum_scale(c, f, (n - 1) as nat);
        lemma_mul_is_distributive_add(c, sum_to(f, (n - 1) as nat), f(n - 1));
    }
}

/// A constant factor on the right moves out of a sum.
pub proof fn lemma_sum_scale_right(f: spec_fn(int) -> int, c: int, n: nat)
    ensures
        sum_to(|j: int| f(j) * c, n) == sum_to(f, n) * c,
    decreases n,
{
    if n > 0 {
        lemma_sum_scale_right(f, c, (n - 1) as nat);
        lemma_mul_is_distributive_add_other_way(c, sum_to(f, (n - 1) as nat), f(n - 1));
    }
}

/// The order of a finite double sum does not matter.
pub proof fn lemma_sum_swap(f: spec_fn(int, int) -> int, rows: nat, cols: nat)
    ensures
        sum_to(row_total(f, cols), rows) == sum_to(col_total(f, rows), cols),
    decreases cols,
{
    if cols > 0 {
        let c = (cols - 1) as nat;
        lemma_sum_swap(f, rows, c);
        let split = plus(row_total(f, c), column(f, c as int));
        assert forall|l: int| 0 <= l < rows implies #[trigger] row_total(f, cols)(l) == split(l) by {}
        lemma_sum_ext(row_total(f, cols), split, rows);
        lemma_sum_add(row_total(f, c), column(f, c as int), rows);
        assert(col_total(f, rows)(c as int) == sum_to(column(f, c as int), rows));
    } else {
        assert forall|l: int| 0 <= l < rows implies #[trigger] row_total(f, 0)(l) == 0 by {}
        lemma_sum_zero(row_total(f, 0), rows);
    }
}

/// A matrix product entry as a sum.
pub proof fn lemma_dot_is_sum(a: Seq<Seq<int>>, b: Seq<Seq<int>>, i: int, k: int, len: nat)
    ensures
        dot(a, b, i, k, len) == sum_to(|j: int| a[i][j] * b[j][k], len),
    decreases len,
{
    if len > 0 {
        lemma_dot_is_sum(a, b, i, k, (len - 1) as nat);
    }
}

/// The triple products `a[i][l] * (b[l][j] * c[j][k])` for fixed `i` and `k`.
pub open spec fn triple(a: Seq<Seq<int>>, b: Seq<Seq<int>>, c: Seq<Seq<int>>, i: int, k: int) -> spec_fn(int, int) -> int {
    |l: int, j: int| a[i][l] * (b[l][j] * c[j][k])
}

/// Entry (i, k) of (A B) C is the sum over j of the column totals of the triple products.
proof fn lemma_left_entry(a: Seq<Seq<int>>, b: Seq<Seq<int>>, c: Seq<Seq<int>>, d: nat, i: int, k: int)
    ensures
        0 <= i < d && 0 <= k < d ==> mat_mul(mat_mul(a, b, d), c, d)[i][k] == sum_to(
            col_total(triple(a, b, c, i, k), d),
            d,
        ),
{
    if 0 <= i < d && 0 <= k < d {
        let ab = mat_mul(a, b, d);
        let f = triple(a, b, c, i, k);
        let terms = |j: int| ab[i][j] * c[j][k];
        lemma_dot_is_sum(ab, c, i, k, d);
        assert forall|j: int| 0 <= j < d implies #[trigger] terms(j) == col_total(f, d)(j) by {
            let prod = |l: int| a[i][l] * b[l][j];
            lemma_dot_is_sum(a, b, i, j, d);
            assert(ab[i][j] == sum_to(prod, d));
            lemma_sum_scale_right(prod, c[j][k], d);
            let scaled = |l: int| prod(l) * c[j][k];
            assert(sum_to(scaled, d) == ab[i][j] * c[j][k]);
            assert forall|l: int| 0 <= l < d implies #[trigger] scaled(l) == column(f, j)(l) by {
                lemma_mul_is_associative(a[i][l], b[l][j], c[j][k]);
            }
            lemma_sum_ext(scaled, column(f, j), d);
        }
        lemma_sum_ext(terms, col_total(f, d), d);
    }
}

/// Entry (i, k) of A (B C) is the sum over l of the row totals of the triple products.
proof fn lemma_right_entry(a: Seq<Seq<int>>, b: Seq<Seq<int>>, c: Seq<Seq<int>>, d: nat, i: int, k: int)
    ensures
        0 <= i < d && 0 <= k < d ==> mat_mul(a, mat_mul(b, c, d), d)[i][k] == sum_to(
            row_total(triple(a, b, c, i, k), d),
            d,
        ),
{
    if 0 <= i < d && 0 <= k < d {
        let bc = mat_mul(b, c, d);
        let f = triple(a, b, c, i, k);
        let terms = |l: int| a[i][l] * bc[l][k];
        lemma_dot_is_sum(a, bc, i, k, d);
        assert forall|l: int| 0 <= l < d implies #[trigger] terms(l) == row_total(f, d)(l) by {
            let prod = |j: int| b[l][j] * c[j][k];
            lemma_dot_is_sum(b, c, l, k, d);
            assert(bc[l][k] == sum_to(prod, d));
            lemma_sum_scale(a[i][l], prod, d);
            let scaled = |j: int| a[i][l] * prod(j);
            assert(sum_to(scaled, d) == a[i][l] * bc[l][k]);
            assert forall|j: int| 0 <= j < d implies #[trigger] scaled(j) == f(l, j) by {}
            lemma_sum_ext(scaled, |j: int| f(l, j), d);
        }
        lemma_sum_ext(terms, row_total(f, d), d);
    }
}

/// Negating the left factor of a product negates each of its partial sums.
proof fn lemma_dot_neg_left(a: Seq<Seq<int>>, b: Seq<Seq<int>>, d: nat, i: int, k: int, len: nat)
    requires
        0 <= i < d,
        len <= d,
    ensures
        dot(neg_of(a, d), b, i, k, len) == -dot(a, b, i, k, len),
    decreases len,
{
    if len > 0 {
        lemma_dot_neg_left(a, b, d, i, k, (len - 1) as nat);
        assert(neg_of(a, d)[i][len - 1] == -a[i][len - 1]);
        assert((-a[i][len - 1]) * b[len - 1][k] == -(a[i][len - 1] * b[len - 1][k])) by (nonlinear_arith);
    }
}

/// Negating the left factor negates the product: (-A) B = -(A B).
pub proof fn lemma_neg_mul(a: Seq<Seq<int>>, b: Seq<Seq<int>>, d: nat)
    ensures
        mat_mul(neg_of(a, d), b, d) == neg_of(mat_mul(a, b, d), d),
{
    let lhs = mat_mul(neg_of(a, d), b, d);
    let rhs = neg_of(mat_mul(a, b, d), d);
    assert forall|i: int| 0 <= i < d implies lhs[i] =~= rhs[i] by {
        assert forall|k: int| 0 <= k < d implies lhs[i][k] == rhs[i][k] by {
            lemma_dot_neg_left(a, b, d, i, k, d);
        }
    }
    assert(lhs =~= rhs);
}

/// Matrix multiplication is associative: (A B) C = A (B C).
pub proof fn lemma_mul_assoc(a: Seq<Seq<int>>, b: Seq<Seq<int>>, c: Seq<Seq<int>>, d: nat)
    ensures
        mat_mul(mat_mul(a, b, d), c, d) == mat_mul(a, mat_mul(b, c, d), d),
{
    let lhs = mat_mul(mat_mul(a, b, d), c, d);
    let rhs = mat_mul(a, mat_mul(b, c, d), d);
    assert forall|i: int| 0 <= i < d implies lhs[i] =~= rhs[i] by {
        assert forall|k: int| 0 <= k < d implies lhs[i][k] == rhs[i][k] by {
            lemma_left_entry(a, b, c, d, i, k);
            lemma_right_entry(a, b, c, d, i, k);
            lemma_sum_swap(triple(a, b, c, i, k), d, d);
        }
    }
    assert(lhs =~= rhs);
}

} // verus!
