use vstd::prelude::*;
use crate::forms::{identity_form, j_form};
use crate::algebra::{lemma_mul_assoc, lemma_neg_mul};
use crate::matrix::{
    is_square, lemma_dot_sparse_col, lemma_dot_sparse_row, mat_mul, neg_of, transpose_of,
};

verus! {

/// `m` preserves the canonical symplectic form of half-dimension n: M^T J M = J,
/// computed exactly.
pub open spec fn preserves_form(m: Seq<Seq<int>>, n: nat) -> bool {
    mat_mul(mat_mul(transpose_of(m, 2 * n), j_form(n), 2 * n), m, 2 * n) == j_form(n)
}

/// Multiplying by the identity on the left leaves a square matrix unchanged.
pub proof fn lemma_identity_left(b: Seq<Seq<int>>, d: nat)
    requires
        is_square(b, d),
    ensures
        mat_mul(identity_form(d), b, d) == b,
{
    let p = mat_mul(identity_form(d), b, d);
    assert forall|i: int| 0 <= i < d implies p[i] =~= b[i] by {
        assert forall|k: int| 0 <= k < d implies p[i][k] == b[i][k] by {
            lemma_dot_sparse_row(identity_form(d), b, i, k, d, i);
        }
    }
    assert(p =~= b);
}

/// Multiplying by the identity on the right leaves a square matrix unchanged.
pub proof fn lemma_identity_right(a: Seq<Seq<int>>, d: nat)
    requires
        is_square(a, d),
    ensures
        mat_mul(a, identity_form(d), d) == a,
{
    let p = mat_mul(a, identity_form(d), d);
    assert forall|i: int| 0 <= i < d implies p[i] =~= a[i] by {
        assert forall|k: int| 0 <= k < d implies p[i][k] == a[i][k] by {
            lemma_dot_sparse_col(a, identity_form(d), i, k, d, k);
        }
    }
    assert(p =~= a);
}

/// J is antisymmetric: J^T = -J.
pub proof fn law_j_antisymmetric(n: nat)
    ensures
        transpose_of(j_form(n), 2 * n) == neg_of(j_form(n), 2 * n),
{
    let t = transpose_of(j_form(n), 2 * n);
    let g = neg_of(j_form(n), 2 * n);
    assert forall|i: int| 0 <= i < 2 * n implies t[i] =~= g[i] by {}
    assert(t =~= g);
}

/// J squares to minus the identity: J J = -I.
pub proof fn law_j_squared(n: nat)
    ensures
        mat_mul(j_form(n), j_form(n), 2 * n) == neg_of(identity_form(2 * n), 2 * n),
{
    let j = j_form(n);
    let d = 2 * n;
    let p = mat_mul(j, j, d);
    let g = neg_of(identity_form(d), d);
    assert forall|i: int| 0 <= i < d implies p[i] =~= g[i] by {
        let r = if i < n { i + n } else { i - n };
        assert forall|k: int| 0 <= k < d implies p[i][k] == g[i][k] by {
            assert forall|x: int| 0 <= x < d && x != r implies #[trigger] j[i][x] == 0 by {}
            lemma_dot_sparse_row(j, j, i, k, d, r);
        }
    }
    assert(p =~= g);
}

/// The transpose of J times J is the identity: J^T J = I.
pub proof fn lemma_jt_j(n: nat)
    ensures
        mat_mul(transpose_of(j_form(n), 2 * n), j_form(n), 2 * n) == identity_form(2 * n),
{
    let j = j_form(n);
    let d = 2 * n;
    let t = transpose_of(j, d);
    let p = mat_mul(t, j, d);
    let g = identity_form(d);
    assert forall|i: int| 0 <= i < d implies p[i] =~= g[i] by {
        let r = if i < n { i + n } else { i - n };
        assert forall|k: int| 0 <= k < d implies p[i][k] == g[i][k] by {
            assert forall|x: int| 0 <= x < d && x != r implies #[trigger] t[i][x] == 0 by {}
            lemma_dot_sparse_row(t, j, i, k, d, r);
        }
    }
    assert(p =~= g);
}

/// The identity preserves the symplectic form: I^T J I = J.
pub proof fn law_identity_preserves_form(n: nat)
    ensures
        preserves_form(identity_form(2 * n), n),
{
    let d = 2 * n;
    let id = identity_form(d);
    assert(transpose_of(id, d) =~= id) by {
        assert forall|i: int| 0 <= i < d implies transpose_of(id, d)[i] =~= id[i] by {}
    }
    assert(is_square(j_form(n), d));
    lemma_identity_left(j_form(n), d);
    lemma_identity_right(j_form(n), d);
}

/// J preserves itself: J^T J J = J.
pub proof fn law_j_preserves_form(n: nat)
    ensures
        preserves_form(j_form(n), n),
{
    let d = 2 * n;
    lemma_jt_j(n);
    assert(is_square(j_form(n), d));
    lemma_identity_left(j_form(n), d);
}

/// The inverse of a symplectic matrix, -J M^T J, as J^T M^T J.
pub open spec fn inverse_form(m: Seq<Seq<int>>, n: nat) -> Seq<Seq<int>> {
    mat_mul(
        mat_mul(transpose_of(j_form(n), 2 * n), transpose_of(m, 2 * n), 2 * n),
        j_form(n),
        2 * n,
    )
}

/// J^T M^T J and -J M^T J are the same matrix.
pub proof fn law_inverse_formulas_agree(m: Seq<Seq<int>>, n: nat)
    ensures
        inverse_form(m, n) == neg_of(
            mat_mul(mat_mul(j_form(n), transpose_of(m, 2 * n), 2 * n), j_form(n), 2 * n),
            2 * n,
        ),
{
    let d = 2 * n;
    let j = j_form(n);
    let mt = transpose_of(m, d);
    law_j_antisymmetric(n);
    lemma_neg_mul(j, mt, d);
    lemma_neg_mul(mat_mul(j, mt, d), j, d);
}

/// For every matrix M with M^T J M = J, the matrix -J M^T J is a (left) inverse of M.
pub proof fn law_inverse_is_inverse(m: Seq<Seq<int>>, n: nat)
    requires
        preserves_form(m, n),
    ensures
        mat_mul(inverse_form(m, n), m, 2 * n) == identity_form(2 * n),
{
    let d = 2 * n;
    let j = j_form(n);
    let jt = transpose_of(j, d);
    let mt = transpose_of(m, d);
    // ((J^T M^T) J) M = (J^T M^T) (J M) = J^T (M^T (J M)) = J^T ((M^T J) M) = J^T J = I
    lemma_mul_assoc(mat_mul(jt, mt, d), j, m, d);
    lemma_mul_assoc(jt, mt, mat_mul(j, m, d), d);
    lemma_mul_assoc(mt, j, m, d);
    lemma_jt_j(n);
}

} // verus!
