use vstd::prelude::*;

verus! {

/// Entry (i, k) of the 2n×2n identity.
pub open spec fn identity_entry(i: int, k: int) -> int {
    if i == k { 1 } else { 0 }
}

/// Entry (i, k) of the canonical symplectic form J = [0, I; -I, 0] of half-dimension n:
/// 1 at (i, n + i) and -1 at (n + i, i) for every i < n, 0 elsewhere.
pub open spec fn j_entry(n: nat, i: int, k: int) -> int {
    if 0 <= i < n && k == i + n {
        1
    } else if n <= i && k == i - n {
        -1
    } else {
        0
    }
}

/// The d×d identity.
pub open spec fn identity_form(d: nat) -> Seq<Seq<int>> {
    Seq::new(d, |i: int| Seq::new(d, |k: int| identity_entry(i, k)))
}

/// The 2n×2n canonical symplectic form J.
pub open spec fn j_form(n: nat) -> Seq<Seq<int>> {
    Seq::new(2 * n, |i: int| Seq::new(2 * n, |k: int| j_entry(n, i, k)))
}

/// The entries of a matrix of small integers, as mathematical integers.
pub open spec fn int_rows(m: Seq<Vec<i8>>) -> Seq<Seq<int>> {
    Seq::new(m.len(), |i: int| m[i]@.map_values(|x: i8| x as int))
}

/// Reading an entry through `int_rows` gives the stored integer.
pub proof fn lemma_int_rows_entries(m: Seq<Vec<i8>>)
    ensures
        int_rows(m).len() == m.len(),
        forall|i: int| 0 <= i < m.len() ==> (#[trigger] int_rows(m)[i]).len() == m[i]@.len(),
        forall|i: int, k: int|
            0 <= i < m.len() && 0 <= k < m[i]@.len() ==> (#[trigger] int_rows(m)[i][k]) == m[i]@[k] as int,
{
}

/// The identity is d×d with ones on the diagonal and zeros elsewhere.
pub proof fn law_identity_entries(d: nat)
    ensures
        identity_form(d).len() == d,
        forall|i: int| 0 <= i < d ==> (#[trigger] identity_form(d)[i]).len() == d,
        forall|i: int| 0 <= i < d ==> (#[trigger] identity_form(d)[i][i]) == 1,
        forall|i: int, k: int| 0 <= i < d && 0 <= k < d && i != k ==> (#[trigger] identity_form(d)[i][k]) == 0,
{
}

/// J = [0, I; -I, 0]: it is 2n×2n, entry (i, n + i) is 1 and entry (n + i, i)
/// is -1 for every i < n, and every other entry is 0.
pub proof fn law_j_form_blocks(n: nat)
    ensures
        j_form(n).len() == 2 * n,
        forall|i: int| 0 <= i < 2 * n ==> (#[trigger] j_form(n)[i]).len() == 2 * n,
        forall|i: int| 0 <= i < n ==> (#[trigger] j_form(n)[i][n + i]) == 1,
        forall|i: int| 0 <= i < n ==> (#[trigger] j_form(n)[n + i][i]) == -1,
        forall|i: int, k: int|
            0 <= i < 2 * n && 0 <= k < 2 * n && !(i < n && k == n + i) && !(k < n && i == n + k)
                ==> (#[trigger] j_form(n)[i][k]) == 0,
{
}

/// The entries of the 2n×2n identity matrix.
pub fn identity_entries(n: usize) -> (m: Vec<Vec<i8>>)
    requires
        2 * n <= usize::MAX,
    ensures
        int_rows(m@) == identity_form(2 * n as nat),
        m@.len() == 2 * n,
        forall|i: int| 0 <= i < 2 * n ==> (#[trigger] m@[i])@.len() == 2 * n,
        forall|i: int| 0 <= i < 2 * n ==> (#[trigger] m@[i]@[i]) == 1,
        forall|i: int, k: int| 0 <= i < 2 * n && 0 <= k < 2 * n && i != k ==> (#[trigger] m@[i]@[k]) == 0,
{
    let d = 2 * n;
    let mut m: Vec<Vec<i8>> = Vec::new();
    let mut i: usize = 0;
    while i < d
        invariant
            d == 2 * n,
            0 <= i <= d,
            m@.len() == i,
            forall|x: int| 0 <= x < i ==> int_rows(m@)[x] == #[trigger] identity_form(d as nat)[x],
        decreases d - i,
    {
        let mut row: Vec<i8> = Vec::new();
        let mut k: usize = 0;
        while k < d
            invariant
                0 <= i < d,
                0 <= k <= d,
                row@.len() == k,
                forall|y: int| 0 <= y < k ==> (#[trigger] row@[y]) as int == identity_entry(i as int, y),
            decreases d - k,
        {
            row.push(if i == k { 1i8 } else { 0i8 });
            k = k + 1;
        }
        let ghost prev = m@;
        m.push(row);
        proof {
            assert forall|x: int| 0 <= x <= i implies int_rows(m@)[x] == #[trigger] identity_form(d as nat)[x] by {
                if x < i {
                    assert(m@[x] == prev[x]);
                    assert(int_rows(m@)[x] == int_rows(prev)[x]);
                } else {
                    assert(int_rows(m@)[x] =~= identity_form(d as nat)[x]);
                }
            }
        }
        i = i + 1;
    }
    assert(int_rows(m@) =~= identity_form(d as nat));
    proof {
        lemma_int_rows_entries(m@);
        law_identity_entries(d as nat);
        assert forall|i: int| 0 <= i < d implies (#[trigger] m@[i])@.len() == d by {
            assert(int_rows(m@)[i].len() == identity_form(d as nat)[i].len());
        }
        assert forall|i: int| 0 <= i < d implies (#[trigger] m@[i]@[i]) == 1 by {
            assert(int_rows(m@)[i].len() == identity_form(d as nat)[i].len());
            assert(int_rows(m@)[i][i] == identity_form(d as nat)[i][i]);
        }
        assert forall|i: int, k: int| 0 <= i < d && 0 <= k < d && i != k implies (#[trigger] m@[i]@[k])
            == 0 by {
            assert(int_rows(m@)[i].len() == identity_form(d as nat)[i].len());
            assert(int_rows(m@)[i][k] == identity_form(d as nat)[i][k]);
        }
    }
    m
}

/// The entries of the canonical symplectic form J of half-dimension n.
pub fn j_form_entries(n: usize) -> (m: Vec<Vec<i8>>)
    requires
        2 * n <= usize::MAX,
    ensures
        int_rows(m@) == j_form(n as nat),
        m@.len() == 2 * n,
        forall|i: int| 0 <= i < 2 * n ==> (#[trigger] m@[i])@.len() == 2 * n,
        forall|i: int| 0 <= i < n ==> (#[trigger] m@[i]@[n + i]) == 1,
        forall|i: int| 0 <= i < n ==> (#[trigger] m@[n + i]@[i]) == -1,
        forall|i: int, k: int|
            0 <= i < 2 * n && 0 <= k < 2 * n && !(i < n && k == n + i) && !(k < n && i == n + k)
                ==> (#[trigger] m@[i]@[k]) == 0,
{
    let d = 2 * n;
    let mut m: Vec<Vec<i8>> = Vec::new();
    let mut i: usize = 0;
    while i < d
        invariant
            d == 2 * n,
            0 <= i <= d,
            m@.len() == i,
            forall|x: int| 0 <= x < i ==> int_rows(m@)[x] == #[trigger] j_form(n as nat)[x],
        decreases d - i,
    {
        let mut row: Vec<i8> = Vec::new();
        let mut k: usize = 0;
        while k < d
            invariant
                d == 2 * n,
                0 <= i < d,
                0 <= k <= d,
                row@.len() == k,
                forall|y: int| 0 <= y < k ==> (#[trigger] row@[y]) as int == j_entry(n as nat, i as int, y),
            decreases d - k,
        {
            let v: i8 = if i < n && k == i + n {
                1
            } else if i >= n && k == i - n {
                -1
            } else {
                0
            };
            row.push(v);
            k = k + 1;
        }
        let ghost prev = m@;
        m.push(row);
        proof {
            assert forall|x: int| 0 <= x <= i implies int_rows(m@)[x] == #[trigger] j_form(n as nat)[x] by {
                if x < i {
                    assert(m@[x] == prev[x]);
                    assert(int_rows(m@)[x] == int_rows(prev)[x]);
                } else {
                    assert(int_rows(m@)[x] =~= j_form(n as nat)[x]);
                }
            }
        }
        i = i + 1;
    }
    assert(int_rows(m@) =~= j_form(n as nat));
    proof {
        lemma_int_rows_entries(m@);
        law_j_form_blocks(n as nat);
        let ghost j = j_form(n as nat);
        assert forall|i: int| 0 <= i < d implies (#[trigger] m@[i])@.len() == d by {
            assert(int_rows(m@)[i].len() == j[i].len());
        }
        assert forall|i: int| 0 <= i < n implies (#[trigger] m@[i]@[n + i]) == 1 by {
            assert(int_rows(m@)[i].len() == j[i].len());
            assert(int_rows(m@)[i][n + i] == j[i][n + i]);
        }
        assert forall|i: int| 0 <= i < n implies (#[trigger] m@[n + i]@[i]) == -1 by {
            assert(int_rows(m@)[n + i].len() == j[n + i].len());
            assert(int_rows(m@)[n + i][i] == j[n + i][i]);
        }
        assert forall|i: int, k: int|
            0 <= i < d && 0 <= k < d && !(i < n && k == n + i) && !(k < n && i == n + k) implies (
            #[trigger] m@[i]@[k]) == 0 by {
            assert(int_rows(m@)[i].len() == j[i].len());
            assert(int_rows(m@)[i][k] == j[i][k]);
        }
    }
    m
}

} // verus!
