//! A small dense row-major matrix, generic over its element type.

use vstd::prelude::*;

use crate::error::{Error, Result};
use crate::text::{decimal, decimal_string};

verus! {

/// A `rows × cols` matrix stored row-major.
#[derive(Clone, Debug, PartialEq, Default)]
pub struct Mat<E> {
    /// Number of rows.
    pub rows: usize,
    /// Number of columns.
    pub cols: usize,
    /// Entries, row by row.
    pub data: Vec<E>,
}

/// A real matrix.
pub type RMat<T> = Mat<T>;

/// `r * cols + c` is inside a `rows × cols` matrix when `(r, c)` is.
pub proof fn lemma_index_in_bounds(r: int, c: int, rows: int, cols: int)
    requires
        0 <= r < rows,
        0 <= c < cols,
    ensures
        0 <= r * cols + c < rows * cols,
{
    assert(0 <= r * cols + c < rows * cols) by (nonlinear_arith)
        requires
            0 <= r < rows,
            0 <= c < cols,
    ;
}

impl<E> Mat<E> {
    /// The entries fill the shape exactly.
    pub open spec fn wf(&self) -> bool {
        self.data@.len() == self.rows * self.cols
    }

    /// Entry `(r, c)`.
    pub open spec fn entry(&self, r: int, c: int) -> E {
        self.data@[r * self.cols + c]
    }

    /// `self` is the transpose of `m`: the shape swapped, the entries filling it, and entry `(r, c)` equal to
    /// `m`'s entry `(c, r)`.
    pub open spec fn is_transpose_of(&self, m: Mat<E>) -> bool {
        &&& self.rows == m.cols
        &&& self.cols == m.rows
        &&& self.wf()
        &&& forall|r: int, c: int|
            0 <= r < m.cols && 0 <= c < m.rows ==> #[trigger] self.entry(r, c) == m.entry(c, r)
    }

    /// `self` is `m` with entry `(r, c)` replaced by `v`.
    pub open spec fn is_update_of(&self, m: Mat<E>, r: int, c: int, v: E) -> bool {
        &&& self.rows == m.rows
        &&& self.cols == m.cols
        &&& self.data@ == m.data@.update(r * m.cols + c, v)
    }
}

/// A flat index inside a `rows × cols` matrix splits into its row `i / cols` and column `i % cols`.
pub proof fn lemma_split_index(i: int, rows: int, cols: int)
    requires
        0 <= i < rows * cols,
        0 <= rows,
    ensures
        cols > 0,
        0 <= i / cols < rows,
        0 <= i % cols < cols,
        i == (i / cols) * cols + i % cols,
{
    assert(cols > 0) by (nonlinear_arith)
        requires
            0 <= i < rows * cols,
            0 <= rows,
    ;
    vstd::arithmetic::div_mod::lemma_fundamental_div_mod(i, cols);
    vstd::arithmetic::div_mod::lemma_mod_pos_bound(i, cols);
    vstd::arithmetic::div_mod::lemma_div_pos_is_pos(i, cols);
    let q = i / cols;
    let m = i % cols;
    assert(q * cols == cols * q) by (nonlinear_arith);
    assert(q < rows) by (nonlinear_arith)
        requires
            i == cols * q + m,
            0 <= m < cols,
            i < rows * cols,
            0 <= q,
    ;
}

/// Two in-range positions of a `cols`-column matrix share a flat index only if they are the same position.
pub proof fn lemma_index_injective(r1: int, c1: int, r2: int, c2: int, cols: int)
    requires
        0 <= c1 < cols,
        0 <= c2 < cols,
        r1 * cols + c1 == r2 * cols + c2,
    ensures
        r1 == r2,
        c1 == c2,
{
    assert(r1 == r2) by (nonlinear_arith)
        requires
            0 <= c1 < cols,
            0 <= c2 < cols,
            r1 * cols + c1 == r2 * cols + c2,
    ;
}

/// Transposing twice gives the matrix back: the transpose of the transpose of a well-formed matrix has its
/// shape and its entries.
pub proof fn law_transpose_twice<E>(m: Mat<E>, t: Mat<E>, u: Mat<E>)
    requires
        m.wf(),
        t.is_transpose_of(m),
        u.is_transpose_of(t),
    ensures
        u.rows == m.rows,
        u.cols == m.cols,
        u.data@ == m.data@,
{
    assert forall|i: int| 0 <= i < m.data@.len() implies u.data@[i] == m.data@[i] by {
        lemma_split_index(i, m.rows as int, m.cols as int);
        let r = i / (m.cols as int);
        let c = i % (m.cols as int);
        assert(u.entry(r, c) == t.entry(c, r));
        assert(t.entry(c, r) == m.entry(r, c));
    }
    assert(u.data@ =~= m.data@);
}

/// Setting an entry and reading it back gives the value set, and every other entry keeps its value.
pub proof fn law_get_after_set<E>(m: Mat<E>, after: Mat<E>, r: int, c: int, v: E)
    requires
        m.wf(),
        0 <= r < m.rows,
        0 <= c < m.cols,
        after.is_update_of(m, r, c, v),
    ensures
        after.wf(),
        after.entry(r, c) == v,
        forall|i: int, j: int|
            0 <= i < m.rows && 0 <= j < m.cols && (i != r || j != c) ==> #[trigger] after.entry(i, j)
                == m.entry(i, j),
{
    lemma_index_in_bounds(r, c, m.rows as int, m.cols as int);
    assert forall|i: int, j: int|
        0 <= i < m.rows && 0 <= j < m.cols && (i != r || j != c) implies #[trigger] after.entry(i, j)
        == m.entry(i, j) by {
        lemma_index_in_bounds(i, j, m.rows as int, m.cols as int);
        if i * m.cols + j == r * m.cols + c {
            lemma_index_injective(i, j, r, c, m.cols as int);
        }
    }
}

/// The error text for data of length `len` given to a `rows × cols` shape.
pub open spec fn entries_message(len: nat, rows: nat, cols: nat) -> Seq<char> {
    decimal(len) + " entries for a "@ + decimal(rows) + "x"@ + decimal(cols) + " matrix"@
}

impl<E: Copy> Mat<E> {
    /// A matrix from row-major data.  Fails if the length does not match the shape.
    pub fn from_vec(rows: usize, cols: usize, data: Vec<E>) -> (res: Result<Self>)
        ensures
            data@.len() == rows * cols ==> res == Ok::<Self, Error>(Mat { rows, cols, data }),
            data@.len() != rows * cols ==> (res matches Err(Error::Dimension(s)) && s@
                == entries_message(data@.len(), rows as nat, cols as nat)),
    {
        let fits = match rows.checked_mul(cols) {
            Some(size) => data.len() == size,
            None => false,
        };
        if !fits {
            let mut s = decimal_string(data.len());
            s.append(" entries for a ");
            s.append(decimal_string(rows).as_str());
            s.append("x");
            s.append(decimal_string(cols).as_str());
            s.append(" matrix");
            return Err(Error::Dimension(s));
        }
        Ok(Mat { rows, cols, data })
    }
}


impl<E: Copy> Mat<E> {
    /// A matrix whose entry `(r, c)` is `f(r, c)`.
    pub fn from_fn(rows: usize, cols: usize, f: impl Fn(usize, usize) -> E) -> (m: Self)
        requires
            rows * cols <= usize::MAX,
            forall|r: usize, c: usize| r < rows && c < cols ==> #[trigger] f.requires((r, c)),
        ensures
            m.rows == rows,
            m.cols == cols,
            m.wf(),
            forall|r: usize, c: usize|
                r < rows && c < cols ==> #[trigger] f.ensures((r, c), m.entry(r as int, c as int)),
    {
        let mut data: Vec<E> = Vec::new();
        let mut r: usize = 0;
        while r < rows
            invariant
                r <= rows,
                rows * cols <= usize::MAX,
                data@.len() == r * cols,
                forall|r: usize, c: usize| r < rows && c < cols ==> #[trigger] f.requires((r, c)),
                forall|i: usize, c: usize|
                    i < r && c < cols ==> #[trigger] f.ensures((i, c), data@[i * cols + c]),
            decreases rows - r,
        {
            let mut c: usize = 0;
            while c < cols
                invariant
                    r < rows,
                    c <= cols,
                    rows * cols <= usize::MAX,
                    data@.len() == r * cols + c,
                    forall|r: usize, c: usize| r < rows && c < cols ==> #[trigger] f.requires((r, c)),
                    forall|i: usize, j: usize|
                        i < r && j < cols ==> #[trigger] f.ensures((i, j), data@[i * cols + j]),
                    forall|j: usize| j < c ==> #[trigger] f.ensures((r, j), data@[r * cols + j]),
                decreases cols - c,
            {
                proof {
                    lemma_index_in_bounds(r as int, c as int, rows as int, cols as int);
                }
                let v = f(r, c);
                let ghost before = data@;
                data.push(v);
                proof {
                    assert forall|i: usize, j: usize| i < r && j < cols implies #[trigger] f.ensures(
                        (i, j),
                        data@[i * cols + j],
                    ) by {
                        lemma_index_in_bounds(i as int, j as int, r as int, cols as int);
                        assert(data@[i * cols + j] == before[i * cols + j]);
                    }
                }
                c = c + 1;
            }
            proof {
                assert((r + 1) * cols == r * cols + cols) by (nonlinear_arith);
            }
            r = r + 1;
        }
        Mat { rows, cols, data }
    }

    /// A `rows × cols` matrix with every entry `v`.
    pub fn filled(rows: usize, cols: usize, v: E) -> (m: Self)
        requires
            rows * cols <= usize::MAX,
        ensures
            m.rows == rows,
            m.cols == cols,
            m.wf(),
            forall|i: int| 0 <= i < rows * cols ==> #[trigger] m.data@[i] == v,
    {
        let mut data: Vec<E> = Vec::new();
        let size = rows * cols;
        while data.len() < size
            invariant
                data@.len() <= size,
                size == rows * cols,
                forall|i: int| 0 <= i < data@.len() ==> #[trigger] data@[i] == v,
            decreases size - data@.len(),
        {
            data.push(v);
        }
        Mat { rows, cols, data }
    }

    /// A column vector.
    pub fn column(data: Vec<E>) -> (m: Self)
        ensures
            m.rows == data@.len(),
            m.cols == 1,
            m.data@ == data@,
    {
        Mat { rows: data.len(), cols: 1, data }
    }

    /// Entry `(r, c)`.
    pub fn get(&self, r: usize, c: usize) -> (v: E)
        requires
            r * self.cols + c < self.data@.len(),
        ensures
            v == self.entry(r as int, c as int),
    {
        let n = self.data.len();
        assert(r * self.cols + c < n);
        self.data[r * self.cols + c]
    }

    /// Set entry `(r, c)`.
    pub fn set(&mut self, r: usize, c: usize, v: E)
        requires
            r * old(self).cols + c < old(self).data@.len(),
        ensures
            final(self).is_update_of(*old(self), r as int, c as int, v),
    {
        let n = self.data.len();
        assert(r * self.cols + c < n);
        let i = r * self.cols + c;
        self.data.set(i, v);
    }

    /// Row `r` as a slice.
    pub fn row(&self, r: usize) -> (s: &[E])
        requires
            (r + 1) * self.cols <= self.data@.len(),
        ensures
            s@ == self.data@.subrange(r * self.cols, (r + 1) * self.cols),
    {
        proof {
            assert((r + 1) * self.cols == r * self.cols + self.cols) by (nonlinear_arith);
        }
        let n = self.data.len();
        assert(r * self.cols <= (r + 1) * self.cols <= n) by (nonlinear_arith)
            requires
                (r + 1) * self.cols <= n,
        ;
        let start = r * self.cols;
        let end = start + self.cols;
        &self.data.as_slice()[start..end]
    }

    /// `(rows, cols)`.
    pub fn shape(&self) -> (s: (usize, usize))
        ensures
            s == (self.rows, self.cols),
    {
        (self.rows, self.cols)
    }

    /// Whether the matrix is square.
    pub fn is_square(&self) -> (b: bool)
        ensures
            b == (self.rows == self.cols),
    {
        self.rows == self.cols
    }

    /// Apply `f` to every entry.
    pub fn map<F2>(&self, f: impl Fn(E) -> F2) -> (m: Mat<F2>)
        requires
            forall|i: int| 0 <= i < self.data@.len() ==> #[trigger] f.requires((self.data@[i],)),
        ensures
            m.rows == self.rows,
            m.cols == self.cols,
            m.data@.len() == self.data@.len(),
            forall|i: int| 0 <= i < self.data@.len() ==> #[trigger] f.ensures((self.data@[i],), m.data@[i]),
    {
        let mut data: Vec<F2> = Vec::new();
        let mut i: usize = 0;
        while i < self.data.len()
            invariant
                i <= self.data@.len(),
                data@.len() == i,
                forall|k: int| 0 <= k < self.data@.len() ==> #[trigger] f.requires((self.data@[k],)),
                forall|k: int| 0 <= k < i ==> #[trigger] f.ensures((self.data@[k],), data@[k]),
            decreases self.data@.len() - i,
        {
            let v = f(self.data[i]);
            data.push(v);
            i = i + 1;
        }
        Mat { rows: self.rows, cols: self.cols, data }
    }

    /// Column `c` as a vector.
    pub fn col(&self, c: usize) -> (v: Vec<E>)
        requires
            self.wf(),
            self.rows == 0 || c < self.cols,
        ensures
            v@.len() == self.rows,
            forall|r: int| 0 <= r < self.rows ==> #[trigger] v@[r] == self.entry(r, c as int),
    {
        let mut v: Vec<E> = Vec::new();
        let mut r: usize = 0;
        while r < self.rows
            invariant
                self.wf(),
                self.rows == 0 || c < self.cols,
                r <= self.rows,
                v@.len() == r,
                forall|i: int| 0 <= i < r ==> #[trigger] v@[i] == self.entry(i, c as int),
            decreases self.rows - r,
        {
            proof {
                lemma_index_in_bounds(r as int, c as int, self.rows as int, self.cols as int);
            }
            v.push(self.get(r, c));
            r = r + 1;
        }
        v
    }

    /// The transpose.
    pub fn transpose(&self) -> (t: Self)
        requires
            self.wf(),
        ensures
            t.is_transpose_of(*self),
    {
        proof {
            assert(self.cols * self.rows == self.rows * self.cols) by (nonlinear_arith);
        }
        let mut data: Vec<E> = Vec::new();
        let mut r: usize = 0;
        while r < self.cols
            invariant
                self.wf(),
                r <= self.cols,
                data@.len() == r * self.rows,
                self.cols * self.rows == self.rows * self.cols,
                forall|i: int, j: int|
                    0 <= i < r && 0 <= j < self.rows ==> #[trigger] data@[i * self.rows + j] == self.entry(j, i),
            decreases self.cols - r,
        {
            let mut c: usize = 0;
            while c < self.rows
                invariant
                    self.wf(),
                    r < self.cols,
                    c <= self.rows,
                    data@.len() == r * self.rows + c,
                    self.cols * self.rows == self.rows * self.cols,
                    forall|i: int, j: int|
                        0 <= i < r && 0 <= j < self.rows ==> #[trigger] data@[i * self.rows + j] == self.entry(j, i),
                    forall|j: int| 0 <= j < c ==> #[trigger] data@[r * self.rows + j] == self.entry(j, r as int),
                decreases self.rows - c,
            {
                proof {
                    lemma_index_in_bounds(c as int, r as int, self.rows as int, self.cols as int);
                    lemma_index_in_bounds(r as int, c as int, self.cols as int, self.rows as int);
                }
                let v = self.get(c, r);
                let ghost before = data@;
                data.push(v);
                proof {
                    assert forall|i: int, j: int| 0 <= i < r && 0 <= j < self.rows implies #[trigger] data@[i
                        * self.rows + j] == self.entry(j, i) by {
                        lemma_index_in_bounds(i, j, r as int, self.rows as int);
                        assert(data@[i * self.rows + j] == before[i * self.rows + j]);
                    }
                }
                c = c + 1;
            }
            proof {
                assert((r + 1) * self.rows == r * self.rows + self.rows) by (nonlinear_arith);
            }
            r = r + 1;
        }
        Mat { rows: self.cols, cols: self.rows, data }
    }
}

/// The error text for multiplying an `a` by a `b` shaped matrix.
pub open spec fn product_message(a: (usize, usize), b: (usize, usize)) -> Seq<char> {
    "cannot multiply "@ + decimal(a.0 as nat) + "x"@ + decimal(a.1 as nat) + " by "@ + decimal(b.0 as nat)
        + "x"@ + decimal(b.1 as nat)
}

/// The error text for combining an `a` and a `b` shaped matrix entrywise.
pub open spec fn same_message(a: (usize, usize), b: (usize, usize)) -> Seq<char> {
    "shapes "@ + decimal(a.0 as nat) + "x"@ + decimal(a.1 as nat) + " and "@ + decimal(b.0 as nat) + "x"@
        + decimal(b.1 as nat) + " differ"@
}

/// Whether an `a`-shaped matrix can multiply a `b`-shaped one.
pub fn check_product(a: (usize, usize), b: (usize, usize)) -> (res: Result<()>)
    ensures
        a.1 == b.0 ==> res is Ok,
        a.1 != b.0 ==> (res matches Err(Error::Dimension(s)) && s@ == product_message(a, b)),
{
    if a.1 != b.0 {
        let mut s = String::from_str("cannot multiply ");
        s.append(decimal_string(a.0).as_str());
        s.append("x");
        s.append(decimal_string(a.1).as_str());
        s.append(" by ");
        s.append(decimal_string(b.0).as_str());
        s.append("x");
        s.append(decimal_string(b.1).as_str());
        return Err(Error::Dimension(s));
    }
    Ok(())
}

/// Whether an `a`-shaped and a `b`-shaped matrix have the same shape.
pub fn check_same(a: (usize, usize), b: (usize, usize)) -> (res: Result<()>)
    ensures
        a == b ==> res is Ok,
        a != b ==> (res matches Err(Error::Dimension(s)) && s@ == same_message(a, b)),
{
    if a.0 != b.0 || a.1 != b.1 {
        let mut s = String::from_str("shapes ");
        s.append(decimal_string(a.0).as_str());
        s.append("x");
        s.append(decimal_string(a.1).as_str());
        s.append(" and ");
        s.append(decimal_string(b.0).as_str());
        s.append("x");
        s.append(decimal_string(b.1).as_str());
        s.append(" differ");
        return Err(Error::Dimension(s));
    }
    Ok(())
}

} // verus!
