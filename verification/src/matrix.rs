use vstd::prelude::*;

verus! {

/// The rows of a matrix stored as vectors, each row seen as a sequence.
pub open spec fn rows_view<T>(m: Seq<Vec<T>>) -> Seq<Seq<T>> {
    m.map_values(|r: Vec<T>| r@)
}

/// `a` is a `d`×`d` matrix.
pub open spec fn is_square<T>(a: Seq<Seq<T>>, d: nat) -> bool {
    &&& a.len() == d
    &&& forall|i: int| 0 <= i < d ==> (#[trigger] a[i]).len() == d
}

/// `a` has at least `d` rows, and each of its first `d` rows has at least `d` entries,
/// so that its leading `d`×`d` block is defined.
pub open spec fn covers<T>(a: Seq<Seq<T>>, d: nat) -> bool {
    &&& d <= a.len()
    &&& forall|i: int| 0 <= i < d ==> d <= (#[trigger] a[i]).len()
}

/// The transpose of the leading `d`×`d` block of `a`: entry (i, k) is `a[k][i]`.
pub open spec fn transpose_of<T>(a: Seq<Seq<T>>, d: nat) -> Seq<Seq<T>> {
    Seq::new(d, |i: int| Seq::new(d, |k: int| a[k][i]))
}

/// The sum of `a[i][j] * b[j][k]` over `j < len`.
pub open spec fn dot(a: Seq<Seq<int>>, b: Seq<Seq<int>>, i: int, k: int, len: nat) -> int
    decreases len,
{
    if len == 0 {
        0
    } else {
        dot(a, b, i, k, (len - 1) as nat) + a[i][len - 1] * b[len - 1][k]
    }
}

/// The product of two d×d integer matrices.
pub open spec fn mat_mul(a: Seq<Seq<int>>, b: Seq<Seq<int>>, d: nat) -> Seq<Seq<int>> {
    Seq::new(d, |i: int| Seq::new(d, |k: int| dot(a, b, i, k, d)))
}

/// The entrywise negation of a d×d integer matrix.
pub open spec fn neg_of(a: Seq<Seq<int>>, d: nat) -> Seq<Seq<int>> {
    Seq::new(d, |i: int| Seq::new(d, |k: int| -a[i][k]))
}

/// Transposes the leading `d`×`d` block of `data`.
pub fn transpose<T: Copy>(data: &Vec<Vec<T>>, d: usize) -> (r: Vec<Vec<T>>)
    requires
        covers(rows_view(data@), d as nat),
    ensures
        rows_view(r@) == transpose_of(rows_view(data@), d as nat),
        r@.len() == d,
        forall|i: int| 0 <= i < d ==> (#[trigger] r@[i])@.len() == d,
        forall|i: int, k: int| 0 <= i < d && 0 <= k < d ==> (#[trigger] r@[i]@[k]) == data@[k]@[i],
{
    let ghost a = rows_view(data@);
    let mut out: Vec<Vec<T>> = Vec::new();
    let mut i: usize = 0;
    while i < d
        invariant
            a == rows_view(data@),
            covers(a, d as nat),
            0 <= i <= d,
            out@.len() == i,
            forall|x: int| 0 <= x < i ==> (#[trigger] out@[x])@ == transpose_of(a, d as nat)[x],
        decreases d - i,
    {
        let mut row: Vec<T> = Vec::new();
        let mut k: usize = 0;
        while k < d
            invariant
                a == rows_view(data@),
                covers(a, d as nat),
                0 <= i < d,
                0 <= k <= d,
                row@.len() == k,
                forall|y: int| 0 <= y < k ==> (#[trigger] row@[y]) == a[y][i as int],
            decreases d - k,
        {
            assert(a[k as int] == data@[k as int]@);
            row.push(data[k][i]);
            k = k + 1;
        }
        assert(row@ == transpose_of(a, d as nat)[i as int]);
        out.push(row);
        i = i + 1;
    }
    assert(rows_view(out@) =~= transpose_of(a, d as nat));
    proof {
        assert forall|x: int| 0 <= x < d implies (#[trigger] out@[x])@.len() == d by {
            assert(rows_view(out@)[x] == out@[x]@);
        }
        assert forall|x: int, y: int| 0 <= x < d && 0 <= y < d implies (#[trigger] out@[x]@[y])
            == data@[y]@[x] by {
            assert(rows_view(out@)[x] == out@[x]@);
            assert(a[y] == data@[y]@);
        }
    }
    out
}

/// Entry (i, k) of the transpose is entry (k, i) of the matrix, and the
/// transpose of the leading d×d block is d×d.
pub proof fn law_transpose_entries<T>(a: Seq<Seq<T>>, d: nat)
    ensures
        transpose_of(a, d).len() == d,
        forall|i: int| 0 <= i < d ==> (#[trigger] transpose_of(a, d)[i]).len() == d,
        forall|i: int, k: int| 0 <= i < d && 0 <= k < d ==> (#[trigger] transpose_of(a, d)[i][k]) == a[k][i],
{
}

/// Transposing the transpose of a square matrix gives the matrix back.
pub proof fn lemma_transpose_involution<T>(a: Seq<Seq<T>>, d: nat)
    requires
        is_square(a, d),
    ensures
        transpose_of(transpose_of(a, d), d) == a,
{
    let t = transpose_of(transpose_of(a, d), d);
    assert forall|i: int| 0 <= i < d implies t[i] =~= a[i] by {}
    assert(t =~= a);
}

/// A sum over `j` whose row `i` of `a` is zero except, possibly, at column `r`
/// reduces to the single term at `r`.
pub proof fn lemma_dot_sparse_row(a: Seq<Seq<int>>, b: Seq<Seq<int>>, i: int, k: int, len: nat, r: int)
    requires
        forall|j: int| 0 <= j < len && j != r ==> #[trigger] a[i][j] == 0,
    ensures
        dot(a, b, i, k, len) == if 0 <= r < len { a[i][r] * b[r][k] } else { 0 },
    decreases len,
{
    if len > 0 {
        lemma_dot_sparse_row(a, b, i, k, (len - 1) as nat, r);
        if len - 1 != r {
            assert(a[i][len - 1] == 0);
            assert(a[i][len - 1] * b[len - 1][k] == 0);
        }
    }
}

/// A sum over `j` whose column `k` of `b` is zero except, possibly, at row `r`
/// reduces to the single term at `r`.
pub proof fn lemma_dot_sparse_col(a: Seq<Seq<int>>, b: Seq<Seq<int>>, i: int, k: int, len: nat, r: int)
    requires
        forall|j: int| 0 <= j < len && j != r ==> #[trigger] b[j][k] == 0,
    ensures
        dot(a, b, i, k, len) == if 0 <= r < len { a[i][r] * b[r][k] } else { 0 },
    decreases len,
{
    if len > 0 {
        lemma_dot_sparse_col(a, b, i, k, (len - 1) as nat, r);
        if len - 1 != r {
            assert(b[len - 1][k] == 0);
            assert(a[i][len - 1] * b[len - 1][k] == 0);
        }
    }
}

} // verus!
