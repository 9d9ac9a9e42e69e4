//! The `Matrix<T>` container: a fixed-shape, row-major sequence of
//! elements together with its row and column counts.

use crate::render::int_text;
use crate::render::matrix_text;
use crate::render::push_int_text;
use crate::render::row_text;
use vstd::prelude::*;
use vstd::string::StringExecFns;

verus! {

/// A dense matrix of `row * col` elements stored in row-major order:
/// the element at logical position `(i, j)` sits at flat index
/// `i * col + j` of `data`.
pub struct Matrix<T> {
    /// Elements in row-major order.
    data: Vec<T>,
    /// Number of rows.
    row: usize,
    /// Number of columns.
    col: usize,
}

impl<T> Matrix<T> {
    /// The element storage, as a mathematical sequence.
    pub closed spec fn entries(&self) -> Seq<T> {
        self.data@
    }

    /// The declared row count.
    pub closed spec fn rows(&self) -> nat {
        self.row as nat
    }

    /// The declared column count.
    pub closed spec fn cols(&self) -> nat {
        self.col as nat
    }

    /// A matrix is well formed when its storage holds exactly one
    /// element per cell of its declared shape. The empty constructor
    /// produces a matrix that is not yet well formed unless its shape
    /// has no cells; such a matrix must be populated through
    /// `mut_data` before it is formatted or used as an operand.
    pub open spec fn wf(&self) -> bool {
        self.entries().len() == self.rows() * self.cols()
    }
}

impl<T: Copy> Matrix<T> {
    /// Creates a matrix of `row` rows and `col` columns whose storage
    /// is a copy of `values`, in the same (row-major) order.
    ///
    /// The length of `values` is not validated against `row * col`:
    /// the caller is responsible for supplying `row * col` elements,
    /// and the result is well formed exactly when it did.
    pub fn new(row: usize, col: usize, values: &[T]) -> (m: Matrix<T>)
        ensures
            m.entries() == values@,
            m.rows() == row,
            m.cols() == col,
            m.wf() <==> values@.len() == row * col,
    {
        let mut v: Vec<T> = Vec::new();
        let mut i: usize = 0;
        while i < values.len()
            invariant
                0 <= i <= values@.len(),
                v@ == values@.take(i as int),
            decreases values@.len() - i,
        {
            v.push(values[i]);
            i = i + 1;
            proof {
                assert(v@ =~= values@.take(i as int));
            }
        }
        proof {
            assert(v@ =~= values@);
        }
        Matrix { data: v, row, col }
    }

    /// Creates a matrix of `row` rows and `col` columns with empty
    /// storage. It is a placeholder, to be populated later through
    /// `mut_data`.
    pub fn new_empty(row: usize, col: usize) -> (m: Matrix<T>)
        ensures
            m.entries() == Seq::<T>::empty(),
            m.rows() == row,
            m.cols() == col,
    {
        let v: Vec<T> = Vec::new();
        Matrix { data: v, row, col }
    }

    /// Returns a shared reference to the element storage.
    pub fn data(&self) -> (d: &Vec<T>)
        ensures
            d@ == self.entries(),
    {
        &self.data
    }

    /// Returns an exclusive reference to the element storage,
    /// permitting arbitrary in-place edits; the shape is not
    /// re-validated against whatever the caller writes.
    pub fn mut_data(&mut self) -> (d: &mut Vec<T>)
        ensures
            d@ == old(self).entries(),
            final(self).entries() == final(d)@,
            final(self).rows() == old(self).rows(),
            final(self).cols() == old(self).cols(),
    {
        &mut self.data
    }

    /// Returns the row and column counts, in that order.
    pub fn size(&self) -> (s: (usize, usize))
        ensures
            s.0 == self.rows(),
            s.1 == self.cols(),
    {
        (self.row, self.col)
    }
}

/// The storage of an `i64` matrix, as a sequence of unbounded integers.
pub open spec fn to_ints(s: Seq<i64>) -> Seq<int> {
    s.map_values(|x: i64| x as int)
}

/// Elementwise sum of two equally long sequences.
pub open spec fn seq_sum(a: Seq<int>, b: Seq<int>) -> Seq<int> {
    Seq::new(a.len(), |k: int| a[k] + b[k])
}

/// Elementwise difference of two equally long sequences.
pub open spec fn seq_diff(a: Seq<int>, b: Seq<int>) -> Seq<int> {
    Seq::new(a.len(), |k: int| a[k] - b[k])
}

/// One term of the dot product behind output cell `(i, j)` of a
/// matrix product: entry `(i, k)` of an `(m, n)` matrix `a` times
/// entry `(k, j)` of an `(n, p)` matrix `b`, in row-major indexing.
pub open spec fn prod_term(a: Seq<int>, b: Seq<int>, n: int, p: int, i: int, j: int, k: int) -> int {
    a[n * i + k] * b[p * k + j]
}

/// The sum of the first `k` terms of the dot product behind output
/// cell `(i, j)`, accumulated from term 0 upward starting at zero.
pub open spec fn dot_prefix(
    a: Seq<int>,
    b: Seq<int>,
    n: int,
    p: int,
    i: int,
    j: int,
    k: nat,
) -> int
    decreases k,
{
    if k == 0 {
        0
    } else {
        dot_prefix(a, b, n, p, i, j, (k - 1) as nat) + prod_term(a, b, n, p, i, j, k - 1)
    }
}

/// Output cell `(i, j)` of the product of an `(m, n)` matrix `a` and
/// an `(n, p)` matrix `b`: the sum over `k` in `[0, n)` of
/// `a[i, k] * b[k, j]`.
pub open spec fn product_entry(a: Seq<int>, b: Seq<int>, n: int, p: int, i: int, j: int) -> int {
    dot_prefix(a, b, n, p, i, j, n as nat)
}

impl Matrix<i64> {
    /// Every elementwise sum of the two storages stays within `i64`.
    pub open spec fn sum_fits(&self, rhs: &Matrix<i64>) -> bool {
        forall|k: int|
            0 <= k < self.entries().len() ==> i64::MIN <= #[trigger] self.entries()[k]
                + rhs.entries()[k] <= i64::MAX
    }

    /// Every elementwise difference of the two storages stays within `i64`.
    pub open spec fn diff_fits(&self, rhs: &Matrix<i64>) -> bool {
        forall|k: int|
            0 <= k < self.entries().len() ==> i64::MIN <= #[trigger] self.entries()[k]
                - rhs.entries()[k] <= i64::MAX
    }

    /// The two matrices have the same shape.
    pub open spec fn same_shape(&self, rhs: &Matrix<i64>) -> bool {
        self.rows() == rhs.rows() && self.cols() == rhs.cols()
    }

    /// Returns the elementwise sum of `self` and `rhs`, a matrix of
    /// the common shape.
    pub fn add(self, rhs: Matrix<i64>) -> (m: Matrix<i64>)
        requires
            self.wf(),
            rhs.wf(),
            self.same_shape(&rhs),
            self.sum_fits(&rhs),
        ensures
            m.rows() == self.rows(),
            m.cols() == self.cols(),
            m.wf(),
            to_ints(m.entries()) == seq_sum(to_ints(self.entries()), to_ints(rhs.entries())),
    {
        let mut v: Vec<i64> = Vec::new();
        let length = self.data.len();
        let mut i: usize = 0;
        while i < length
            invariant
                0 <= i <= length,
                length == self.entries().len(),
                length == rhs.entries().len(),
                self.sum_fits(&rhs),
                v@.len() == i,
                forall|k: int| 0 <= k < i ==> #[trigger] v@[k] == self.entries()[k] + rhs.entries()[k],
            decreases length - i,
        {
            v.push(self.data[i] + rhs.data[i]);
            i = i + 1;
        }
        let m = Matrix { data: v, row: self.row, col: self.col };
        proof {
            assert(to_ints(m.entries()) =~= seq_sum(
                to_ints(self.entries()),
                to_ints(rhs.entries()),
            ));
        }
        m
    }

    /// Returns the elementwise difference of `self` and `rhs`, a
    /// matrix of the common shape.
    pub fn sub(self, rhs: Matrix<i64>) -> (m: Matrix<i64>)
        requires
            self.wf(),
            rhs.wf(),
            self.same_shape(&rhs),
            self.diff_fits(&rhs),
        ensures
            m.rows() == self.rows(),
            m.cols() == self.cols(),
            m.wf(),
            to_ints(m.entries()) == seq_diff(to_ints(self.entries()), to_ints(rhs.entries())),
    {
        let mut v: Vec<i64> = Vec::new();
        let length = self.data.len();
        let mut i: usize = 0;
        while i < length
            invariant
                0 <= i <= length,
                length == self.entries().len(),
                length == rhs.entries().len(),
                self.diff_fits(&rhs),
                v@.len() == i,
                forall|k: int| 0 <= k < i ==> #[trigger] v@[k] == self.entries()[k] - rhs.entries()[k],
            decreases length - i,
        {
            v.push(self.data[i] - rhs.data[i]);
            i = i + 1;
        }
        let m = Matrix { data: v, row: self.row, col: self.col };
        proof {
            assert(to_ints(m.entries()) =~= seq_diff(
                to_ints(self.entries()),
                to_ints(rhs.entries()),
            ));
        }
        m
    }

    /// Every term and every partial sum of every dot product behind
    /// the product of `self` and `rhs` stays within `i64`.
    pub open spec fn product_fits(&self, rhs: &Matrix<i64>) -> bool {
        let a = to_ints(self.entries());
        let b = to_ints(rhs.entries());
        let n = self.cols() as int;
        let p = rhs.cols() as int;
        &&& forall|i: int, j: int, k: int|
            0 <= i < self.rows() && 0 <= j < p && 0 <= k < n ==> i64::MIN <= #[trigger] prod_term(
                a,
                b,
                n,
                p,
                i,
                j,
                k,
            ) <= i64::MAX
        &&& forall|i: int, j: int, k: int|
            0 <= i < self.rows() && 0 <= j < p && 0 <= k <= n ==> i64::MIN <= #[trigger] dot_prefix(
                a,
                b,
                n,
                p,
                i,
                j,
                k as nat,
            ) <= i64::MAX
    }

    /// The inner dimensions agree: `self` has as many columns as
    /// `rhs` has rows.
    pub open spec fn inner_match(&self, rhs: &Matrix<i64>) -> bool {
        self.cols() == rhs.rows()
    }

    /// Returns the matrix product of `self` (shape `(m, n)`) and
    /// `rhs` (shape `(n, p)`): a matrix of shape `(m, p)` whose cell
    /// `(i, j)` is the sum over `k` in `[0, n)` of
    /// `self[i, k] * rhs[k, j]`, accumulated from zero in increasing
    /// `k` order.
    #[verifier::loop_isolation(false)]
    pub fn mul(self, rhs: Matrix<i64>) -> (m: Matrix<i64>)
        requires
            self.wf(),
            rhs.wf(),
            self.inner_match(&rhs),
            self.product_fits(&rhs),
        ensures
            m.rows() == self.rows(),
            m.cols() == rhs.cols(),
            m.wf(),
            m.entries().len() == self.rows() * rhs.cols(),
            forall|i: int, j: int|
                0 <= i < self.rows() && 0 <= j < rhs.cols() ==> to_ints(m.entries())[i * rhs.cols()
                    + j] == #[trigger] product_entry(
                    to_ints(self.entries()),
                    to_ints(rhs.entries()),
                    self.cols() as int,
                    rhs.cols() as int,
                    i,
                    j,
                ),
    {
        let ghost a = to_ints(self.entries());
        let ghost b = to_ints(rhs.entries());
        let m1 = self.row;
        let n1 = self.col;
        let n2 = rhs.col;
        let len_a = self.data.len();
        let len_b = rhs.data.len();
        let mut v: Vec<i64> = Vec::new();
        let mut i: usize = 0;
        while i < m1
            invariant
                0 <= i <= m1,
                v@.len() == i * n2,
                forall|i2: int, j2: int|
                    0 <= i2 < i && 0 <= j2 < n2 ==> to_ints(v@)[i2 * n2 + j2]
                        == #[trigger] product_entry(a, b, n1 as int, n2 as int, i2, j2),
            decreases m1 - i,
        {
            let mut j: usize = 0;
            while j < n2
                invariant
                    0 <= i < m1,
                    0 <= j <= n2,
                    v@.len() == i * n2 + j,
                    forall|i2: int, j2: int|
                        0 <= i2 < i && 0 <= j2 < n2 ==> to_ints(v@)[i2 * n2 + j2]
                            == #[trigger] product_entry(a, b, n1 as int, n2 as int, i2, j2),
                    forall|j2: int|
                        0 <= j2 < j ==> to_ints(v@)[i * n2 + j2] == #[trigger] product_entry(
                            a,
                            b,
                            n1 as int,
                            n2 as int,
                            i as int,
                            j2,
                        ),
                decreases n2 - j,
            {
                let mut sum: i64 = 0;
                let mut k: usize = 0;
                while k < n1
                    invariant
                        0 <= i < m1,
                        0 <= j < n2,
                        0 <= k <= n1,
                        sum == dot_prefix(a, b, n1 as int, n2 as int, i as int, j as int, k as nat),
                    decreases n1 - k,
                {
                    assert(n1 * i + k < len_a && n2 * k + j < len_b) by (nonlinear_arith)
                        requires
                            0 <= i < m1,
                            0 <= j < n2,
                            0 <= k < n1,
                            len_a == m1 * n1,
                            len_b == n1 * n2,
                    ;
                    let x = self.data[n1 * i + k];
                    let y = rhs.data[n2 * k + j];
                    proof {
                        assert(x as int * y as int == prod_term(
                            a,
                            b,
                            n1 as int,
                            n2 as int,
                            i as int,
                            j as int,
                            k as int,
                        ));
                        assert(dot_prefix(a, b, n1 as int, n2 as int, i as int, j as int, (k
                            + 1) as nat) == dot_prefix(
                            a,
                            b,
                            n1 as int,
                            n2 as int,
                            i as int,
                            j as int,
                            k as nat,
                        ) + prod_term(a, b, n1 as int, n2 as int, i as int, j as int, k as int));
                    }
                    let term = x * y;
                    sum = sum + term;
                    k = k + 1;
                }
                v.push(sum);
                j = j + 1;
                proof {
                    assert forall|i2: int, j2: int| 0 <= i2 < i && 0 <= j2 < n2 implies to_ints(
                        v@,
                    )[i2 * n2 + j2] == #[trigger] product_entry(a, b, n1 as int, n2 as int, i2, j2) by {
                        assert(0 <= i2 * n2 + j2 < (i * n2 + j - 1) as int) by (nonlinear_arith)
                            requires
                                0 <= i2 < i,
                                0 <= j2 < n2,
                                1 <= j <= n2,
                        ;
                    }
                    assert forall|j2: int| 0 <= j2 < j implies to_ints(v@)[i * n2 + j2]
                        == #[trigger] product_entry(a, b, n1 as int, n2 as int, i as int, j2) by {
                        assert(0 <= i * n2 + j2 <= (i * n2 + j - 1) as int);
                    }
                }
            }
            i = i + 1;
            proof {
                assert(v@.len() == i * n2) by (nonlinear_arith)
                    requires
                        v@.len() == (i - 1) * n2 + n2,
                ;
                assert forall|i2: int, j2: int| 0 <= i2 < i && 0 <= j2 < n2 implies to_ints(v@)[i2
                    * n2 + j2] == #[trigger] product_entry(a, b, n1 as int, n2 as int, i2, j2) by {
                    if i2 == i - 1 {
                        assert(i2 * n2 + j2 == (i - 1) * n2 + j2) by (nonlinear_arith)
                            requires
                                i2 == i - 1,
                        ;
                    }
                }
            }
        }
        let m = Matrix { data: v, row: self.row, col: rhs.col };
        proof {
            assert(m.entries().len() == self.rows() * rhs.cols()) by (nonlinear_arith)
                requires
                    m.entries().len() == m1 * n2,
                    m1 == self.rows(),
                    n2 == rhs.cols(),
            ;
        }
        m
    }

    /// Renders the matrix as text: one line per row, the row's
    /// entries in decimal, space-separated with no trailing space,
    /// each line closed by exactly one newline, and no blank line
    /// before or after the block.
    #[verifier::loop_isolation(false)]
    pub fn to_text(&self) -> (t: String)
        requires
            self.wf(),
        ensures
            t@ == matrix_text(self.entries(), self.rows(), self.cols()),
    {
        let mut out = String::new();
        let len = self.data.len();
        let mut i: usize = 0;
        while i < self.row
            invariant
                0 <= i <= self.row,
                out@ == matrix_text(self.entries(), i as nat, self.cols()),
            decreases self.row - i,
        {
            let ghost base = i as int * self.col as int;
            proof {
                assert(0 <= base && base + self.col as int <= len) by (nonlinear_arith)
                    requires
                        0 <= i < self.row,
                        len == self.row * self.col,
                        base == i as int * self.col as int,
                ;
                assert(self.entries().subrange(base, base) =~= Seq::<i64>::empty());
                assert(out@ =~= out@ + row_text(self.entries().subrange(base, base)));
            }
            let mut j: usize = 0;
            while j < self.col
                invariant
                    0 <= i < self.row,
                    0 <= j <= self.col,
                    base == i as int * self.col as int,
                    out@ == matrix_text(self.entries(), i as nat, self.cols()) + row_text(
                        self.entries().subrange(base, base + j),
                    ),
                decreases self.col - j,
            {
                if j > 0 {
                    out.append(" ");
                    proof {
                        reveal_strlit(" ");
                    }
                }
                assert(i * self.col + j < len && i * self.col == base) by (nonlinear_arith)
                    requires
                        0 <= i < self.row,
                        0 <= j < self.col,
                        len == self.row * self.col,
                        base == i as int * self.col as int,
                ;
                push_int_text(&mut out, self.data[i * self.col + j]);
                j = j + 1;
                proof {
                    let sub = self.entries().subrange(base, base + j);
                    if j == 1 {
                        assert(row_text(sub) == int_text(self.entries()[base] as int));
                    } else {
                        assert(sub.drop_last() =~= self.entries().subrange(base, base + j - 1));
                    }
                    assert(out@ =~= matrix_text(self.entries(), i as nat, self.cols()) + row_text(
                        sub,
                    ));
                }
            }
            out.append("\n");
            i = i + 1;
            proof {
                reveal_strlit("\n");
                assert(base + self.col as int == i as int * self.col as int) by (nonlinear_arith)
                    requires
                        base == (i - 1) * self.col as int,
                ;
                assert(matrix_text(self.entries(), i as nat, self.cols()) == matrix_text(
                    self.entries(),
                    (i - 1) as nat,
                    self.cols(),
                ) + row_text(self.entries().subrange(base, base + self.col as int)) + seq!['\n']);
                assert(out@ =~= matrix_text(self.entries(), i as nat, self.cols()));
            }
        }
        out
    }

    /// Like `mul`, but instead of demanding matching inner dimensions
    /// it reports a mismatch by returning `None`; `Some` is returned
    /// exactly when `self` has as many columns as `rhs` has rows.
    pub fn checked_mul(self, rhs: Matrix<i64>) -> (r: Option<Matrix<i64>>)
        requires
            self.wf(),
            rhs.wf(),
            self.inner_match(&rhs) ==> self.product_fits(&rhs),
        ensures
            r is Some <==> self.inner_match(&rhs),
            r matches Some(m) ==> {
                &&& m.rows() == self.rows()
                &&& m.cols() == rhs.cols()
                &&& m.wf()
                &&& m.entries().len() == self.rows() * rhs.cols()
                &&& forall|i: int, j: int|
                    0 <= i < self.rows() && 0 <= j < rhs.cols() ==> to_ints(m.entries())[i
                        * rhs.cols() + j] == #[trigger] product_entry(
                        to_ints(self.entries()),
                        to_ints(rhs.entries()),
                        self.cols() as int,
                        rhs.cols() as int,
                        i,
                        j,
                    )
            },
    {
        if self.col != rhs.row {
            None
        } else {
            Some(self.mul(rhs))
        }
    }

    /// Like `add`, but instead of demanding equal shapes it reports a
    /// shape mismatch by returning `None`; `Some` is returned exactly
    /// when the shapes agree.
    pub fn checked_add(self, rhs: Matrix<i64>) -> (r: Option<Matrix<i64>>)
        requires
            self.wf(),
            rhs.wf(),
            self.same_shape(&rhs) ==> self.sum_fits(&rhs),
        ensures
            r is Some <==> self.same_shape(&rhs),
            r matches Some(m) ==> {
                &&& m.rows() == self.rows()
                &&& m.cols() == self.cols()
                &&& m.wf()
                &&& to_ints(m.entries()) == seq_sum(
                    to_ints(self.entries()),
                    to_ints(rhs.entries()),
                )
            },
    {
        if self.row != rhs.row || self.col != rhs.col {
            None
        } else {
            Some(self.add(rhs))
        }
    }

    /// Like `sub`, but instead of demanding equal shapes it reports a
    /// shape mismatch by returning `None`; `Some` is returned exactly
    /// when the shapes agree.
    pub fn checked_sub(self, rhs: Matrix<i64>) -> (r: Option<Matrix<i64>>)
        requires
            self.wf(),
            rhs.wf(),
            self.same_shape(&rhs) ==> self.diff_fits(&rhs),
        ensures
            r is Some <==> self.same_shape(&rhs),
            r matches Some(m) ==> {
                &&& m.rows() == self.rows()
                &&& m.cols() == self.cols()
                &&& m.wf()
                &&& to_ints(m.entries()) == seq_diff(
                    to_ints(self.entries()),
                    to_ints(rhs.entries()),
                )
            },
    {
        if self.row != rhs.row || self.col != rhs.col {
            None
        } else {
            Some(self.sub(rhs))
        }
    }
}

} // verus!
