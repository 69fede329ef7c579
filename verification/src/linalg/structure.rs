//! Rearranging matrices without arithmetic: a run of a column vector, one column, and matrices side by side.

use vstd::prelude::*;

use crate::error::{Error, Result};
use crate::linalg::mat::{Mat, lemma_index_in_bounds};
use crate::text::{decimal, decimal_string};

verus! {

/// The error text for a run `start..end` that a `rows × cols` matrix cannot give.
pub open spec fn slice_message(start: nat, end: nat, rows: nat, cols: nat) -> Seq<char> {
    "slice "@ + decimal(start) + ".."@ + decimal(end) + " of a "@ + decimal(rows) + "x"@ + decimal(cols) + " matrix"@
}

/// The error text for a column `c` that a `rows × cols` matrix does not have.
pub open spec fn column_message(c: nat, rows: nat, cols: nat) -> Seq<char> {
    "column "@ + decimal(c) + " of a "@ + decimal(rows) + "x"@ + decimal(cols) + " matrix"@
}

/// The error text for matrices of different heights placed side by side.
pub open spec fn hstack_message() -> Seq<char> {
    "hstack of matrices with different row counts"@
}

/// Entries `start..start + len` of the column vector `x`, as a column vector.  Anything but a column vector, or a
/// run past its end, is a dimension error.
pub fn slice_column<E: Copy>(x: &Mat<E>, start: usize, len: usize) -> (res: Result<Mat<E>>)
    requires
        x.wf(),
        start + len <= usize::MAX,
    ensures
        x.cols == 1 && start + len <= x.rows ==> (res matches Ok(m) && m.rows == len && m.cols == 1 && m.data@
            == x.data@.subrange(start as int, start + len)),
        !(x.cols == 1 && start + len <= x.rows) ==> (res matches Err(Error::Dimension(s)) && s@ == slice_message(
            start as nat,
            (start + len) as nat,
            x.rows as nat,
            x.cols as nat,
        )),
{
    if x.cols != 1 || start + len > x.rows {
        let mut s = String::from_str("slice ");
        s.append(decimal_string(start).as_str());
        s.append("..");
        s.append(decimal_string(start + len).as_str());
        s.append(" of a ");
        s.append(decimal_string(x.rows).as_str());
        s.append("x");
        s.append(decimal_string(x.cols).as_str());
        s.append(" matrix");
        return Err(Error::Dimension(s));
    }
    let mut data: Vec<E> = Vec::new();
    let mut i: usize = start;
    while i < start + len
        invariant
            x.wf(),
            x.cols == 1,
            start + len <= x.rows,
            start <= i <= start + len,
            data@ == x.data@.subrange(start as int, i as int),
        decreases start + len - i,
    {
        data.push(x.data[i]);
        i = i + 1;
        assert(data@ =~= x.data@.subrange(start as int, i as int));
    }
    Ok(Mat::column(data))
}

/// Column `c` of `x`, as a column vector.  A column past the last is a dimension error.
pub fn column_of<E: Copy>(x: &Mat<E>, c: usize) -> (res: Result<Mat<E>>)
    requires
        x.wf(),
    ensures
        c < x.cols ==> (res matches Ok(m) && m.rows == x.rows && m.cols == 1 && forall|r: int|
            0 <= r < x.rows ==> #[trigger] m.data@[r] == x.entry(r, c as int)),
        c >= x.cols ==> (res matches Err(Error::Dimension(s)) && s@ == column_message(
            c as nat,
            x.rows as nat,
            x.cols as nat,
        )),
{
    if c >= x.cols {
        let mut s = String::from_str("column ");
        s.append(decimal_string(c).as_str());
        s.append(" of a ");
        s.append(decimal_string(x.rows).as_str());
        s.append("x");
        s.append(decimal_string(x.cols).as_str());
        s.append(" matrix");
        return Err(Error::Dimension(s));
    }
    Ok(Mat::column(x.col(c)))
}

/// The number of columns of `parts[0..p]` together: where part `p` starts when they are placed side by side.
pub open spec fn cols_before<E>(parts: Seq<Mat<E>>, p: int) -> nat
    decreases p,
{
    if p <= 0 {
        0
    } else {
        cols_before(parts, p - 1) + parts[p - 1].cols as nat
    }
}

/// Parts further along start no earlier.
proof fn lemma_cols_before_grows<E>(parts: Seq<Mat<E>>, p: int, q: int)
    requires
        0 <= p <= q,
    ensures
        cols_before(parts, p) <= cols_before(parts, q),
    decreases q - p,
{
    if p < q {
        lemma_cols_before_grows(parts, p, q - 1);
    }
}

/// `m` is `parts` placed side by side: the common row count, the columns of all parts in order, and column `c`
/// of part `p` at column `cols_before(parts, p) + c`.
pub open spec fn is_hstack_of<E>(m: Mat<E>, parts: Seq<Mat<E>>, rows: nat) -> bool {
    &&& m.rows == rows
    &&& m.cols == cols_before(parts, parts.len() as int)
    &&& m.wf()
    &&& forall|p: int, r: int, c: int|
        0 <= p < parts.len() && 0 <= r < rows && 0 <= c < parts[p].cols ==> #[trigger] m.entry(
            r,
            cols_before(parts, p) + c,
        ) == #[trigger] parts[p].entry(r, c)
}

/// For each column of the result, the part and the column of that part it comes from.
fn column_owners<E>(parts: &[Mat<E>]) -> (owners: Vec<(usize, usize)>)
    requires
        cols_before(parts@, parts@.len() as int) <= usize::MAX,
    ensures
        owners@.len() == cols_before(parts@, parts@.len() as int),
        forall|k: int|
            0 <= k < owners@.len() ==> #[trigger] owners@[k].0 < parts@.len() && owners@[k].1
                < parts@[owners@[k].0 as int].cols && k == cols_before(parts@, owners@[k].0 as int)
                + owners@[k].1,
        forall|p: int, c: int|
            0 <= p < parts@.len() && 0 <= c < parts@[p].cols ==> #[trigger] owners@[cols_before(parts@, p) + c]
                == (p as usize, c as usize),
{
    let mut owners: Vec<(usize, usize)> = Vec::new();
    let mut p: usize = 0;
    while p < parts.len()
        invariant
            p <= parts@.len(),
            cols_before(parts@, parts@.len() as int) <= usize::MAX,
            owners@.len() == cols_before(parts@, p as int),
            forall|k: int|
                0 <= k < owners@.len() ==> #[trigger] owners@[k].0 < p && owners@[k].1 < parts@[owners@[k].0 as int].cols
                    && k == cols_before(parts@, owners@[k].0 as int) + owners@[k].1,
            forall|q: int, c: int|
                0 <= q < p && 0 <= c < parts@[q].cols ==> #[trigger] owners@[cols_before(parts@, q) + c] == (
                q as usize,
                c as usize,
            ),
        decreases parts@.len() - p,
    {
        proof {
            lemma_cols_before_grows(parts@, p + 1, parts@.len() as int);
        }
        let mut c: usize = 0;
        while c < parts[p].cols
            invariant
                p < parts@.len(),
                cols_before(parts@, p + 1) <= usize::MAX,
                cols_before(parts@, p + 1) == cols_before(parts@, p as int) + parts@[p as int].cols,
                c <= parts@[p as int].cols,
                owners@.len() == cols_before(parts@, p as int) + c,
                forall|k: int|
                    0 <= k < owners@.len() ==> #[trigger] owners@[k].0 <= p && owners@[k].1
                        < parts@[owners@[k].0 as int].cols && k == cols_before(parts@, owners@[k].0 as int)
                        + owners@[k].1,
                forall|q: int, d: int|
                    0 <= q < p && 0 <= d < parts@[q].cols ==> #[trigger] owners@[cols_before(parts@, q) + d] == (
                    q as usize,
                    d as usize,
                ),
                forall|d: int| 0 <= d < c ==> #[trigger] owners@[cols_before(parts@, p as int) + d] == (p, d as usize),
            decreases parts@[p as int].cols - c,
        {
            let ghost before = owners@;
            owners.push((p, c));
            proof {
                assert forall|q: int, d: int|
                    0 <= q < p && 0 <= d < parts@[q].cols implies #[trigger] owners@[cols_before(parts@, q) + d] == (
                    q as usize,
                    d as usize,
                ) by {
                    lemma_cols_before_grows(parts@, q + 1, p as int);
                    assert(owners@[cols_before(parts@, q) + d] == before[cols_before(parts@, q) + d]);
                }
                assert forall|d: int| 0 <= d < c implies #[trigger] owners@[cols_before(parts@, p as int) + d] == (
                    p,
                    d as usize,
                ) by {
                    assert(owners@[cols_before(parts@, p as int) + d] == before[cols_before(parts@, p as int) + d]);
                }
            }
            c = c + 1;
        }
        p = p + 1;
    }
    owners
}

/// Place matrices with equal row counts side by side.  Parts of different heights are a dimension error; no
/// parts give an empty matrix.
pub fn hstack<E: Copy>(parts: &[Mat<E>]) -> (res: Result<Mat<E>>)
    requires
        forall|p: int| 0 <= p < parts@.len() ==> #[trigger] parts@[p].wf(),
        cols_before(parts@, parts@.len() as int) <= usize::MAX,
        parts@.len() > 0 ==> parts@[0].rows * cols_before(parts@, parts@.len() as int) <= usize::MAX,
    ensures
        (forall|p: int| 0 <= p < parts@.len() ==> #[trigger] parts@[p].rows == parts@[0].rows) ==> (res matches Ok(
            m,
        ) && is_hstack_of(m, parts@, if parts@.len() > 0 { parts@[0].rows as nat } else { 0 })),
        !(forall|p: int| 0 <= p < parts@.len() ==> #[trigger] parts@[p].rows == parts@[0].rows) ==> (res matches Err(
            Error::Dimension(s),
        ) && s@ == hstack_message()),
{
    let rows = if parts.len() > 0 {
        parts[0].rows
    } else {
        0
    };
    let mut p: usize = 0;
    while p < parts.len()
        invariant
            p <= parts@.len(),
            parts@.len() > 0 ==> rows == parts@[0].rows,
            forall|q: int| 0 <= q < p ==> #[trigger] parts@[q].rows == rows,
        decreases parts@.len() - p,
    {
        if parts[p].rows != rows {
            return Err(Error::Dimension(String::from_str("hstack of matrices with different row counts")));
        }
        p = p + 1;
    }
    let owners = column_owners(parts);
    let total = owners.len();
    let mut data: Vec<E> = Vec::new();
    let mut r: usize = 0;
    while r < rows
        invariant
            forall|q: int| 0 <= q < parts@.len() ==> #[trigger] parts@[q].wf(),
            forall|q: int| 0 <= q < parts@.len() ==> #[trigger] parts@[q].rows == rows,
            parts@.len() == 0 ==> rows == 0,
            rows * total <= usize::MAX,
            total == owners@.len(),
            owners@.len() == cols_before(parts@, parts@.len() as int),
            forall|k: int|
                0 <= k < owners@.len() ==> #[trigger] owners@[k].0 < parts@.len() && owners@[k].1
                    < parts@[owners@[k].0 as int].cols,
            r <= rows,
            data@.len() == r * total,
            forall|i: int, k: int|
                0 <= i < r && 0 <= k < total ==> #[trigger] data@[i * total + k] == parts@[owners@[k].0 as int].entry(
                    i,
                    owners@[k].1 as int,
                ),
        decreases rows - r,
    {
        let mut k: usize = 0;
        while k < total
            invariant
                forall|q: int| 0 <= q < parts@.len() ==> #[trigger] parts@[q].wf(),
                forall|q: int| 0 <= q < parts@.len() ==> #[trigger] parts@[q].rows == rows,
                rows * total <= usize::MAX,
                total == owners@.len(),
                forall|j: int|
                    0 <= j < owners@.len() ==> #[trigger] owners@[j].0 < parts@.len() && owners@[j].1
                        < parts@[owners@[j].0 as int].cols,
                r < rows,
                k <= total,
                data@.len() == r * total + k,
                forall|i: int, j: int|
                    0 <= i < r && 0 <= j < total ==> #[trigger] data@[i * total + j] == parts@[owners@[j].0 as int].entry(
                        i,
                        owners@[j].1 as int,
                    ),
                forall|j: int| 0 <= j < k ==> #[trigger] data@[r * total + j] == parts@[owners@[j].0 as int].entry(
                    r as int,
                    owners@[j].1 as int,
                ),
            decreases total - k,
        {
            let (q, c) = owners[k];
            assert(owners@[k as int].0 < parts@.len() && owners@[k as int].1 < parts@[owners@[k as int].0 as int].cols);
            let part = &parts[q];
            assert(part.wf() && part.rows == rows && c < part.cols);
            proof {
                lemma_index_in_bounds(r as int, c as int, part.rows as int, part.cols as int);
                lemma_index_in_bounds(r as int, k as int, rows as int, total as int);
            }
            let v = part.get(r, c);
            let ghost before = data@;
            data.push(v);
            proof {
                assert forall|i: int, j: int| 0 <= i < r && 0 <= j < total implies #[trigger] data@[i * total + j]
                    == parts@[owners@[j].0 as int].entry(i, owners@[j].1 as int) by {
                    lemma_index_in_bounds(i, j, r as int, total as int);
                    assert(data@[i * total + j] == before[i * total + j]);
                }
            }
            k = k + 1;
        }
        proof {
            assert((r + 1) * total == r * total + total) by (nonlinear_arith);
        }
        r = r + 1;
    }
    let m = Mat { rows, cols: total, data };
    proof {
        assert forall|p: int, i: int, c: int|
            0 <= p < parts@.len() && 0 <= i < rows && 0 <= c < parts@[p].cols implies #[trigger] m.entry(
            i,
            cols_before(parts@, p) + c,
        ) == #[trigger] parts@[p].entry(i, c) by {
            lemma_cols_before_grows(parts@, p + 1, parts@.len() as int);
            let k = cols_before(parts@, p) + c;
            assert(owners@[k] == (p as usize, c as usize));
        }
    }
    Ok(m)
}

} // verus!
