use vstd::prelude::*;

verus! {

/// Why a candidate matrix is not accepted as a 2n×2n symplectic matrix.
#[derive(Debug, Clone, Copy, PartialEq, Eq, Structural)]
pub enum MatrixError {
    /// The number of rows is zero or odd.
    NotEvenDimension,
    /// Some row does not have as many entries as there are rows.
    NotSquare,
    /// The matrix fails M^T J M = J.
    NotSymplectic,
}

/// The number of rows is positive and even.
pub open spec fn even_positive(len: nat) -> bool {
    len > 0 && len % 2 == 0
}

/// Every row of `rows` has exactly `d` entries.
pub open spec fn rows_have_len<T>(rows: Seq<Vec<T>>, d: nat) -> bool {
    forall|i: int| 0 <= i < rows.len() ==> (#[trigger] rows[i])@.len() == d
}

/// What the dimension check answers for a list of rows.
pub open spec fn shape_outcome<T>(rows: Seq<Vec<T>>) -> Result<nat, MatrixError> {
    if !even_positive(rows.len()) {
        Err(MatrixError::NotEvenDimension)
    } else if !rows_have_len(rows, rows.len()) {
        Err(MatrixError::NotSquare)
    } else {
        Ok(rows.len() / 2)
    }
}

impl MatrixError {
    /// The human-readable text of the error.
    pub fn message(&self) -> (s: String)
        ensures
            s@ == match *self {
                MatrixError::NotEvenDimension => "Matrix must be 2n×2n"@,
                MatrixError::NotSquare => "Matrix must be square"@,
                MatrixError::NotSymplectic => "Matrix is not symplectic: M^T J M ≠ J"@,
            },
    {
        match self {
            MatrixError::NotEvenDimension => "Matrix must be 2n×2n".to_owned(),
            MatrixError::NotSquare => "Matrix must be square".to_owned(),
            MatrixError::NotSymplectic => "Matrix is not symplectic: M^T J M ≠ J".to_owned(),
        }
    }
}

/// Checks that `data` is a square matrix with a positive, even number of
/// rows, and returns the half-dimension `n` of the 2n×2n matrix.
/// An empty or odd-sized list of rows is reported before a ragged one.
pub fn check_shape<T>(data: &Vec<Vec<T>>) -> (r: Result<usize, MatrixError>)
    ensures
        match r {
            Ok(n) => shape_outcome(data@) == Ok::<nat, MatrixError>(n as nat),
            Err(e) => shape_outcome(data@) == Err::<nat, MatrixError>(e),
        },
        data@.len() > 0 && data@.len() % 2 == 0
            && (forall|i: int| 0 <= i < data@.len() ==> (#[trigger] data@[i])@.len() == data@.len())
            ==> (r matches Ok(n) && n == data@.len() / 2),
        r == Err::<usize, MatrixError>(MatrixError::NotEvenDimension) <==> (data@.len() == 0
            || data@.len() % 2 == 1),
        r == Err::<usize, MatrixError>(MatrixError::NotSquare) <==> (data@.len() > 0 && data@.len()
            % 2 == 0 && exists|i: int| 0 <= i < data@.len() && (#[trigger] data@[i])@.len() != data@.len()),
        r != Err::<usize, MatrixError>(MatrixError::NotSymplectic),
        forall|n: usize| r == Ok::<usize, MatrixError>(n) ==> {
            &&& data@.len() == 2 * n
            &&& n > 0
            &&& forall|i: int| 0 <= i < data@.len() ==> (#[trigger] data@[i])@.len() == 2 * n
        },
{
    let m = data.len();
    if m == 0 || m % 2 != 0 {
        return Err(MatrixError::NotEvenDimension);
    }
    let mut i: usize = 0;
    while i < m
        invariant
            m == data@.len(),
            even_positive(m as nat),
            0 <= i <= m,
            forall|j: int| 0 <= j < i ==> (#[trigger] data@[j])@.len() == m,
        decreases m - i,
    {
        if data[i].len() != m {
            assert(!rows_have_len(data@, m as nat)) by {
                assert(data@[i as int]@.len() != m);
            }
            return Err(MatrixError::NotSquare);
        }
        i = i + 1;
    }
    Ok(m / 2)
}

/// The dimension rules stated directly: a positive, even number m of rows,
/// each of length m, is accepted with half-dimension m / 2; zero or an odd
/// number of rows is reported as `NotEvenDimension`; otherwise a row of the
/// wrong length is reported as `NotSquare`.
pub proof fn law_shape_rules<T>(rows: Seq<Vec<T>>)
    ensures
        rows.len() > 0 && rows.len() % 2 == 0
            && (forall|i: int| 0 <= i < rows.len() ==> (#[trigger] rows[i])@.len() == rows.len())
            ==> shape_outcome(rows) == Ok::<nat, MatrixError>(rows.len() / 2),
        shape_outcome(rows) == Err::<nat, MatrixError>(MatrixError::NotEvenDimension) <==> (rows.len()
            == 0 || rows.len() % 2 == 1),
        shape_outcome(rows) == Err::<nat, MatrixError>(MatrixError::NotSquare) <==> (rows.len() > 0
            && rows.len() % 2 == 0 && exists|i: int|
            0 <= i < rows.len() && (#[trigger] rows[i])@.len() != rows.len()),
        shape_outcome(rows) != Err::<nat, MatrixError>(MatrixError::NotSymplectic),
{
}

} // verus!
