use vstd::prelude::*;

verus! {

/// Every row of the matrix has `len` entries.
pub open spec fn all_rows_have_len<T>(rows: Seq<Vec<T>>, len: nat) -> bool {
    forall|i: int| 0 <= i < rows.len() ==> #[trigger] rows[i]@.len() == len
}

/// The matrix has `d` rows of `d` entries each.
pub open spec fn is_square_of_size<T>(rows: Seq<Vec<T>>, d: nat) -> bool {
    rows.len() == d && all_rows_have_len(rows, d)
}

/// Whether every row of the matrix has `len` entries.
pub fn rows_have_len<T>(rows: &[Vec<T>], len: usize) -> (b: bool)
    ensures
        b == all_rows_have_len(rows@, len as nat),
        b ==> forall|i: int| 0 <= i < rows@.len() ==> #[trigger] rows@[i]@.len() == len,
        !b ==> exists|i: int| 0 <= i < rows@.len() && #[trigger] rows@[i]@.len() != len,
{
    let n = rows.len();
    let mut i: usize = 0;
    while i < n
        invariant
            n == rows@.len(),
            i <= n,
            forall|k: int| 0 <= k < i ==> #[trigger] rows@[k]@.len() == len,
        decreases n - i,
    {
        if rows[i].len() != len {
            assert(rows@[i as int]@.len() != len);
            return false;
        }
        i = i + 1;
    }
    true
}


/// Why the dimensions of a branching simulation are refused.
#[derive(Clone, Copy, Debug, PartialEq, Eq, Structural)]
pub enum DimensionError {
    /// The baseline has no dimension.
    EmptyBaseline,
    /// The branching matrix is not square of the baseline's dimension.
    AlphaShape,
}

/// Checks the dimensions of a branching simulation: the baseline must have a
/// positive dimension `d`, and the branching ratios `alpha` must form a
/// `d` by `d` matrix.
pub fn check_branching_dimensions<T>(dimension: usize, alpha: &[Vec<T>]) -> (r: Result<(), DimensionError>)
    ensures
        r == (if dimension == 0 {
            Err(DimensionError::EmptyBaseline)
        } else if !is_square_of_size(alpha@, dimension as nat) {
            Err(DimensionError::AlphaShape)
        } else {
            Ok(())
        }),
        r is Ok ==> dimension > 0 && alpha@.len() == dimension,
        r is Ok ==> forall|i: int| 0 <= i < alpha@.len() ==> #[trigger] alpha@[i]@.len() == dimension,
        (dimension > 0 && alpha@.len() == dimension
            && forall|i: int| 0 <= i < alpha@.len() ==> #[trigger] alpha@[i]@.len() == dimension) ==> r is Ok,
        r == Err::<(), DimensionError>(DimensionError::EmptyBaseline) <==> dimension == 0,
{
    if dimension == 0 {
        return Err(DimensionError::EmptyBaseline);
    }
    if alpha.len() != dimension || !rows_have_len(alpha, dimension) {
        return Err(DimensionError::AlphaShape);
    }
    Ok(())
}

/// A matrix passes the row-length test for `len` exactly when no row is
/// longer or shorter than `len`.
pub proof fn lemma_rows_have_len_exact<T>(rows: Seq<Vec<T>>, len: nat)
    ensures
        all_rows_have_len(rows, len) <==> forall|i: int| 0 <= i < rows.len() ==> #[trigger] rows[i]@.len() == len,
        forall|i: int| 0 <= i < rows.len() && #[trigger] rows[i]@.len() > len ==> !all_rows_have_len(rows, len),
        forall|i: int| 0 <= i < rows.len() && #[trigger] rows[i]@.len() < len ==> !all_rows_have_len(rows, len),
{
}

/// A matrix is square of size `d` exactly when it has `d` rows, each of `d`
/// entries; one row too many or too few makes it not square.
pub proof fn lemma_square_exact<T>(rows: Seq<Vec<T>>, d: nat)
    ensures
        is_square_of_size(rows, d) <==> (rows.len() == d && forall|i: int| 0 <= i < rows.len() ==> #[trigger] rows[i]@.len() == d),
        rows.len() != d ==> !is_square_of_size(rows, d),
{
}

} // verus!
