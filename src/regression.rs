use vstd::prelude::*;

use crate::errors::DatasetError;

verus! {

/// Every row of `rows` has `m` entries.
pub open spec fn all_rows_len<N>(rows: Seq<Vec<N>>, m: nat) -> bool {
    forall|i: int| 0 <= i < rows.len() ==> (#[trigger] rows[i])@.len() == m
}

/// A design of `n` rows of `m` features with one target per row, `n` and
/// `m` positive.
pub open spec fn design_ok<N>(x: Seq<Vec<N>>, y: Seq<N>) -> bool {
    &&& x.len() > 0
    &&& x[0]@.len() > 0
    &&& y.len() == x.len()
    &&& all_rows_len(x, x[0]@.len())
}

/// Checks the shape of a regression: returns the number of rows and of
/// features, or refuses an empty design, an empty row, a target count that
/// differs from the row count, or rows of unequal length.
pub fn check_design<N>(x: &Vec<Vec<N>>, y: &Vec<N>) -> (r: Result<(usize, usize), DatasetError>)
    ensures
        r is Ok <==> design_ok(x@, y@),
        r matches Ok((n, m)) ==> n == x@.len() && m == x@[0]@.len(),
        r matches Err(e) ==> e is InvalidData,
{
    let n = x.len();
    if n == 0 {
        return Err(DatasetError::InvalidData("the design has no rows".to_owned()));
    }
    let m = x[0].len();
    if m == 0 {
        return Err(DatasetError::InvalidData("the design has no features".to_owned()));
    }
    if y.len() != n {
        return Err(DatasetError::InvalidData("targets and rows differ in number".to_owned()));
    }
    let mut i: usize = 0;
    while i < n
        invariant
            n == x@.len(),
            m == x@[0]@.len(),
            i <= n,
            forall|j: int| 0 <= j < i ==> (#[trigger] x@[j])@.len() == m,
        decreases n - i,
    {
        if x[i].len() != m {
            assert(x@[i as int]@.len() != x@[0]@.len());
            return Err(DatasetError::InvalidData("rows of the design differ in length".to_owned()));
        }
        i += 1;
    }
    Ok((n, m))
}

/// Checks that `matrix` is square and not empty, and returns its order.
pub fn check_square<N>(matrix: &Vec<Vec<N>>) -> (r: Result<usize, DatasetError>)
    ensures
        r is Ok <==> matrix@.len() > 0 && all_rows_len(matrix@, matrix@.len()),
        r matches Ok(n) ==> n == matrix@.len(),
        r matches Err(e) ==> e is InvalidData,
{
    let n = matrix.len();
    if n == 0 {
        return Err(DatasetError::InvalidData("an empty matrix cannot be inverted".to_owned()));
    }
    let mut i: usize = 0;
    while i < n
        invariant
            n == matrix@.len(),
            i <= n,
            forall|j: int| 0 <= j < i ==> (#[trigger] matrix@[j])@.len() == n,
        decreases n - i,
    {
        if matrix[i].len() != n {
            return Err(DatasetError::InvalidData("the matrix is not square".to_owned()));
        }
        i += 1;
    }
    Ok(n)
}

/// Turns columns into rows: row `i` holds entry `i` of each column, in
/// column order. Refuses no columns, and columns of unequal length.
pub fn transpose<N: Copy>(columns: &Vec<Vec<N>>) -> (r: Result<Vec<Vec<N>>, DatasetError>)
    ensures
        r is Ok <==> columns@.len() > 0 && all_rows_len(columns@, columns@[0]@.len()),
        r matches Ok(rows) ==> {
            &&& rows@.len() == columns@[0]@.len()
            &&& forall|i: int| 0 <= i < rows@.len() ==> (#[trigger] rows@[i])@.len() == columns@.len()
            &&& forall|i: int, j: int| 0 <= i < rows@.len() && 0 <= j < columns@.len()
                ==> #[trigger] rows@[i]@[j] == columns@[j]@[i]
        },
        r matches Err(e) ==> e is InvalidData,
{
    let m = columns.len();
    if m == 0 {
        return Err(DatasetError::InvalidData("nothing to transpose".to_owned()));
    }
    let n = columns[0].len();
    let mut c: usize = 0;
    while c < m
        invariant
            m == columns@.len(),
            n == columns@[0]@.len(),
            c <= m,
            forall|j: int| 0 <= j < c ==> (#[trigger] columns@[j])@.len() == n,
        decreases m - c,
    {
        if columns[c].len() != n {
            return Err(DatasetError::InvalidData("columns differ in length".to_owned()));
        }
        c += 1;
    }
    let mut rows: Vec<Vec<N>> = Vec::new();
    let mut i: usize = 0;
    while i < n
        invariant
            m == columns@.len(),
            n == columns@[0]@.len(),
            i <= n,
            all_rows_len(columns@, n as nat),
            rows@.len() == i,
            forall|a: int| 0 <= a < i ==> (#[trigger] rows@[a])@.len() == m,
            forall|a: int, j: int| 0 <= a < i && 0 <= j < m ==> #[trigger] rows@[a]@[j] == columns@[j]@[a],
        decreases n - i,
    {
        let mut row: Vec<N> = Vec::new();
        let mut j: usize = 0;
        while j < m
            invariant
                m == columns@.len(),
                i < n,
                all_rows_len(columns@, n as nat),
                j <= m,
                row@.len() == j,
                forall|b: int| 0 <= b < j ==> row@[b] == columns@[b]@[i as int],
            decreases m - j,
        {
            assert(columns@[j as int]@.len() == n);
            row.push(columns[j][i]);
            j += 1;
        }
        rows.push(row);
        i += 1;
    }
    Ok(rows)
}

} // verus!
