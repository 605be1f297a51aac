//! Flat-buffer matrices with stride addressing.
//!
//! A matrix owns a flat buffer of scalars (IEEE-754 double bit patterns)
//! and addresses the element at row `r`, column `c` as `r * stride + c`.
//! A matrix that owns its storage has `stride == cols`; a matrix sliced
//! out of a wider table keeps the stride of its source. A matrix starts
//! logically empty (buffer length zero) and is populated exactly once by
//! one of the fill operations; after that it is mutated only through the
//! documented element and whole-matrix operations.

use vstd::prelude::*;

use crate::scalar::{
    add_of, float_lt, is_nan, mul_of, sigmoid_spec, uniform_draw, NEG_ZERO_BITS, TEN_BITS,
    ZERO_BITS,
};
use crate::scalar::{rand_float, scalar_add, scalar_mul, sigmoid};

verus! {

/// The error of an operation whose operands' dimensions do not satisfy
/// the operation's shape precondition.
#[derive(Debug, Clone, Copy, PartialEq, Eq, Structural)]
pub enum MatrixError {
    ShapeMismatch,
}

/// A two-dimensional container of scalars over a flat buffer.
#[derive(Debug, Clone)]
pub struct Matrix {
    /// Number of logical rows; positive.
    pub rows: usize,
    /// Number of logical columns; positive.
    pub cols: usize,
    /// Distance in the buffer between the starts of consecutive rows.
    pub stride: usize,
    /// The backing buffer; empty until the matrix is filled.
    pub data: Vec<u64>,
}

impl Matrix {
    /// Shape sanity: positive dimensions, stride at least the column
    /// count, and a buffer that either is still empty (an unfilled
    /// matrix, necessarily with its own storage) or covers every cell.
    pub open spec fn wf(&self) -> bool {
        &&& 1 <= self.rows
        &&& 1 <= self.cols
        &&& self.cols <= self.stride
        &&& (self.rows - 1) * self.stride + self.cols <= usize::MAX
        &&& (self.data@.len() == 0 ==> self.stride == self.cols && self.rows * self.cols
            <= usize::MAX)
        &&& (self.data@.len() != 0 ==> (self.rows - 1) * self.stride + self.cols
            <= self.data@.len())
    }

    /// Whether the matrix has been populated.
    pub open spec fn filled(&self) -> bool {
        self.data@.len() != 0
    }

    /// The buffer position of the cell at row `r`, column `c`.
    pub open spec fn idx(&self, r: int, c: int) -> int {
        pos_of(self.stride as int, r, c)
    }

    /// The scalar stored at row `r`, column `c`.
    pub open spec fn cell(&self, r: int, c: int) -> u64 {
        self.data@[self.idx(r, c)]
    }

    /// The scalars of row `r`, in column order.
    pub open spec fn row_seq(&self, r: int) -> Seq<u64> {
        Seq::new(self.cols as nat, |c: int| self.cell(r, c))
    }

    /// The scalars of column `c`, in row order.
    pub open spec fn col_seq(&self, c: int) -> Seq<u64> {
        Seq::new(self.rows as nat, |r: int| self.cell(r, c))
    }

    /// The logical contents: the rows, each a sequence of scalars.
    pub open spec fn rows_view(&self) -> Seq<Seq<u64>> {
        Seq::new(self.rows as nat, |r: int| self.row_seq(r))
    }

    /// Same logical dimensions.
    pub open spec fn shape_eq(&self, other: &Matrix) -> bool {
        self.rows == other.rows && self.cols == other.cols
    }

    /// Same dimensions, stride and buffer contents.
    pub open spec fn state_eq(&self, other: &Matrix) -> bool {
        &&& self.rows == other.rows
        &&& self.cols == other.cols
        &&& self.stride == other.stride
        &&& self.data@ == other.data@
    }

    /// Same dimensions, stride and buffer length.
    pub open spec fn layout_eq(&self, other: &Matrix) -> bool {
        &&& self.rows == other.rows
        &&& self.cols == other.cols
        &&& self.stride == other.stride
        &&& self.data@.len() == other.data@.len()
    }

    /// Whether buffer position `i` holds some logical cell.
    pub open spec fn covered(&self, i: int) -> bool {
        covered_at(self.rows as int, self.cols as int, self.stride as int, i)
    }
}

/// The buffer position of row `r`, column `c` under stride `stride`.
pub open spec fn pos_of(stride: int, r: int, c: int) -> int {
    r * stride + c
}

/// Whether buffer position `i` holds a logical cell of a matrix with the
/// given dimensions and stride.
pub open spec fn covered_at(rows: int, cols: int, stride: int, i: int) -> bool {
    exists|r: int, c: int| 0 <= r < rows && 0 <= c < cols && i == #[trigger] pos_of(stride, r, c)
}

/// Left-folded dot product of two scalar sequences: the accumulator
/// after `k` steps of `acc = acc + x[step] * y[step]` in IEEE-754 double
/// arithmetic.
pub open spec fn dot_seq(acc: u64, x: Seq<u64>, y: Seq<u64>, k: nat) -> u64
    decreases k,
{
    if k == 0 {
        acc
    } else {
        add_of(dot_seq(acc, x, y, (k - 1) as nat), mul_of(x[k - 1], y[k - 1]))
    }
}

/// Every cell's buffer position stays strictly below the buffer span
/// `(rows - 1) * stride + cols`.
pub proof fn lemma_idx_bound(r: int, c: int, rows: int, cols: int, stride: int)
    by (nonlinear_arith)
    requires
        0 <= r < rows,
        0 <= c < cols,
        cols <= stride,
    ensures
        0 <= r * stride + c,
        r * stride + c < (rows - 1) * stride + cols,
{
}

/// A matrix with its own stride spans exactly `rows * cols` buffer
/// positions.
pub proof fn lemma_full_span(rows: int, cols: int)
    by (nonlinear_arith)
    requires
        1 <= rows,
    ensures
        (rows - 1) * cols + cols == rows * cols,
{
}

/// Distinct cells occupy distinct buffer positions: stride addressing is
/// injective while the stride is at least the column count.
pub proof fn lemma_idx_injective(stride: int, cols: int, r1: int, c1: int, r2: int, c2: int)
    by (nonlinear_arith)
    requires
        cols <= stride,
        0 <= r1,
        0 <= r2,
        0 <= c1 < cols,
        0 <= c2 < cols,
        r1 * stride + c1 == r2 * stride + c2,
    ensures
        r1 == r2,
        c1 == c2,
{
}

impl Matrix {
    /// Reserves storage for a `rows` by `cols` matrix with its own
    /// stride; the buffer stays logically empty until a fill runs.
    pub fn allocate(rows: usize, cols: usize) -> (m: Matrix)
        requires
            1 <= rows,
            1 <= cols,
            rows * cols <= usize::MAX,
        ensures
            m.wf(),
            !m.filled(),
            m.rows == rows,
            m.cols == cols,
            m.stride == cols,
    {
        proof {
            lemma_full_span(rows as int, cols as int);
        }
        Matrix { rows, cols, stride: cols, data: Vec::with_capacity(rows * cols) }
    }

    /// The buffer position of row `row`, column `col` under stride
    /// `stride`.
    pub fn at(stride: usize, row: usize, col: usize) -> (res: usize)
        requires
            row * stride + col <= usize::MAX,
        ensures
            res == row * stride + col,
    {
        row * stride + col
    }

    /// Reads the cell at `row`, `col`.
    pub fn get_at(source: &Matrix, row: usize, col: usize) -> (res: u64)
        requires
            source.wf(),
            source.filled(),
            row < source.rows,
            col < source.cols,
        ensures
            res == source.cell(row as int, col as int),
    {
        proof {
            lemma_idx_bound(
                row as int,
                col as int,
                source.rows as int,
                source.cols as int,
                source.stride as int,
            );
        }
        let i = Matrix::at(source.stride, row, col);
        source.data[i]
    }

    /// Overwrites the cell at `row`, `col` with `value`.
    pub fn set_at(matrix: &mut Matrix, row: usize, col: usize, value: u64)
        requires
            old(matrix).wf(),
            old(matrix).filled(),
            row < old(matrix).rows,
            col < old(matrix).cols,
        ensures
            final(matrix).rows == old(matrix).rows,
            final(matrix).cols == old(matrix).cols,
            final(matrix).stride == old(matrix).stride,
            0 <= old(matrix).idx(row as int, col as int) < old(matrix).data@.len(),
            final(matrix).data@.len() == old(matrix).data@.len(),
            final(matrix).data@ == old(matrix).data@.update(
                old(matrix).idx(row as int, col as int),
                value,
            ),
            final(matrix).wf(),
            final(matrix).filled(),
            final(matrix).cell(row as int, col as int) == value,
            forall|r: int, c: int|
                0 <= r < old(matrix).rows && 0 <= c < old(matrix).cols && !(r == row && c == col)
                    ==> #[trigger] final(matrix).cell(r, c) == old(matrix).cell(r, c),
            forall|i: int|
                0 <= i < old(matrix).data@.len() && !old(matrix).covered(i)
                    ==> final(matrix).data@[i] == old(matrix).data@[i],
    {
        proof {
            lemma_idx_bound(
                row as int,
                col as int,
                matrix.rows as int,
                matrix.cols as int,
                matrix.stride as int,
            );
        }
        let i = Matrix::at(matrix.stride, row, col);
        matrix.data[i] = value;
        proof {
            assert forall|r: int, c: int|
                0 <= r < old(matrix).rows && 0 <= c < old(matrix).cols && !(r == row && c == col)
                    implies #[trigger] matrix.cell(r, c) == old(matrix).cell(r, c) by {
                lemma_idx_bound(
                    r,
                    c,
                    old(matrix).rows as int,
                    old(matrix).cols as int,
                    old(matrix).stride as int,
                );
                if matrix.idx(r, c) == old(matrix).idx(row as int, col as int) {
                    lemma_idx_injective(
                        old(matrix).stride as int,
                        old(matrix).cols as int,
                        r,
                        c,
                        row as int,
                        col as int,
                    );
                }
            }
            assert forall|i2: int|
                0 <= i2 < old(matrix).data@.len() && !old(matrix).covered(i2)
                    implies matrix.data@[i2] == old(matrix).data@[i2] by {
                if i2 == old(matrix).idx(row as int, col as int) {
                    assert(old(matrix).covered(i2));
                }
            }
        }
    }

    /// Appends `rows * cols` copies of `value`, populating a matrix that
    /// was allocated but never filled.
    pub fn fill(matrix: &mut Matrix, value: u64)
        requires
            old(matrix).wf(),
            !old(matrix).filled(),
        ensures
            final(matrix).rows == old(matrix).rows,
            final(matrix).cols == old(matrix).cols,
            final(matrix).stride == old(matrix).stride,
            final(matrix).data@.len() == old(matrix).rows * old(matrix).cols,
            final(matrix).wf(),
            final(matrix).filled(),
            forall|r: int, c: int|
                0 <= r < old(matrix).rows && 0 <= c < old(matrix).cols
                    ==> #[trigger] final(matrix).cell(r, c) == value,
    {
        let total = matrix.rows * matrix.cols;
        let mut i: usize = 0;
        while i < total
            invariant
                matrix.rows == old(matrix).rows,
                matrix.cols == old(matrix).cols,
                matrix.stride == old(matrix).stride,
                total == matrix.rows * matrix.cols,
                i <= total,
                matrix.data@.len() == i,
                forall|j: int| 0 <= j < i ==> matrix.data@[j] == value,
            decreases total - i,
        {
            matrix.data.push(value);
            i = i + 1;
        }
        proof {
            lemma_full_span(matrix.rows as int, matrix.cols as int);
            assert forall|r: int, c: int|
                0 <= r < old(matrix).rows && 0 <= c < old(matrix).cols
                    implies #[trigger] matrix.cell(r, c) == value by {
                lemma_idx_bound(
                    r,
                    c,
                    matrix.rows as int,
                    matrix.cols as int,
                    matrix.stride as int,
                );
            }
        }
    }

    /// Populates a matrix that was allocated but never filled with the
    /// given values, read in row-major order: the buffer must hold
    /// exactly `rows * cols` scalars, else nothing changes and a
    /// `ShapeMismatch` is reported.
    pub fn fill_vec(matrix: &mut Matrix, values: Vec<u64>) -> (res: Result<(), MatrixError>)
        requires
            old(matrix).wf(),
            !old(matrix).filled(),
        ensures
            res is Ok <==> values@.len() == old(matrix).rows * old(matrix).cols,
            res is Err ==> *final(matrix) == *old(matrix) && res == Err::<(), MatrixError>(
                MatrixError::ShapeMismatch,
            ),
            res is Ok ==> {
                &&& final(matrix).rows == old(matrix).rows
                &&& final(matrix).cols == old(matrix).cols
                &&& final(matrix).stride == old(matrix).stride
                &&& final(matrix).data@ == values@
                &&& final(matrix).wf()
                &&& final(matrix).filled()
                &&& forall|r: int, c: int|
                    0 <= r < old(matrix).rows && 0 <= c < old(matrix).cols
                        ==> #[trigger] final(matrix).cell(r, c) == values@[r * old(matrix).cols
                        + c]
            },
    {
        let total = matrix.rows * matrix.cols;
        if values.len() != total {
            return Err(MatrixError::ShapeMismatch);
        }
        let mut i: usize = 0;
        while i < matrix.rows
            invariant
                matrix.rows == old(matrix).rows,
                matrix.cols == old(matrix).cols,
                matrix.stride == old(matrix).stride,
                matrix.stride == matrix.cols,
                old(matrix).wf(),
                i <= matrix.rows,
                total == matrix.rows * matrix.cols,
                values@.len() == total,
                matrix.data@.len() == i * matrix.cols,
                forall|k: int| 0 <= k < i * matrix.cols ==> matrix.data@[k] == values@[k],
            decreases matrix.rows - i,
        {
            let mut j: usize = 0;
            while j < matrix.cols
                invariant
                    matrix.rows == old(matrix).rows,
                    matrix.cols == old(matrix).cols,
                    matrix.stride == old(matrix).stride,
                    matrix.stride == matrix.cols,
                    old(matrix).wf(),
                    i < matrix.rows,
                    j <= matrix.cols,
                    total == matrix.rows * matrix.cols,
                    values@.len() == total,
                    matrix.data@.len() == i * matrix.cols + j,
                    forall|k: int| 0 <= k < i * matrix.cols + j ==> matrix.data@[k] == values@[k],
                decreases matrix.cols - j,
            {
                proof {
                    lemma_idx_bound(
                        i as int,
                        j as int,
                        matrix.rows as int,
                        matrix.cols as int,
                        matrix.stride as int,
                    );
                    lemma_full_span(matrix.rows as int, matrix.cols as int);
                }
                let pos = Matrix::at(matrix.stride, i, j);
                let value = values[pos];
                matrix.data.push(value);
                j = j + 1;
            }
            proof {
                assert((i + 1) * matrix.cols == i * matrix.cols + matrix.cols)
                    by (nonlinear_arith);
            }
            i = i + 1;
        }
        proof {
            lemma_full_span(matrix.rows as int, matrix.cols as int);
            assert(matrix.data@ =~= values@);
            assert forall|r: int, c: int|
                0 <= r < old(matrix).rows && 0 <= c < old(matrix).cols
                    implies #[trigger] matrix.cell(r, c) == values@[r * old(matrix).cols
                + c] by {
                lemma_idx_bound(
                    r,
                    c,
                    matrix.rows as int,
                    matrix.cols as int,
                    matrix.stride as int,
                );
            }
        }
        Ok(())
    }

    /// What `copy` leaves behind: the destination keeps its layout, every
    /// cell holds the corresponding source cell, and buffer positions
    /// outside the logical cells are untouched.
    pub open spec fn copy_post(d0: Matrix, s: Matrix, d1: Matrix) -> bool {
        &&& d1.rows == d0.rows
        &&& d1.cols == d0.cols
        &&& d1.stride == d0.stride
        &&& d1.data@.len() == d0.data@.len()
        &&& forall|r: int, c: int|
            0 <= r < d0.rows && 0 <= c < d0.cols ==> #[trigger] d1.cell(r, c) == s.cell(r, c)
        &&& forall|i: int|
            0 <= i < d0.data@.len() && !d0.covered(i) ==> d1.data@[i] == d0.data@[i]
    }

    /// Overwrites the destination cell by cell with the source, each side
    /// addressed through its own stride; the two must agree on rows and
    /// columns, else nothing changes and a `ShapeMismatch` is reported.
    pub fn copy(destination: &mut Matrix, source: &Matrix) -> (res: Result<(), MatrixError>)
        requires
            old(destination).wf(),
            old(destination).filled(),
            source.wf(),
            source.filled(),
        ensures
            res is Ok <==> old(destination).shape_eq(source),
            res is Err ==> *final(destination) == *old(destination) && res == Err::<
                (),
                MatrixError,
            >(MatrixError::ShapeMismatch),
            res is Ok ==> Matrix::copy_post(*old(destination), *source, *final(destination)),
            final(destination).wf(),
            final(destination).filled(),
    {
        if !(destination.cols == source.cols && destination.rows == source.rows) {
            return Err(MatrixError::ShapeMismatch);
        }
        let mut row: usize = 0;
        while row < source.rows
            invariant
                destination.rows == old(destination).rows,
                destination.cols == old(destination).cols,
                destination.stride == old(destination).stride,
                destination.data@.len() == old(destination).data@.len(),
                old(destination).wf(),
                old(destination).filled(),
                destination.wf(),
                destination.filled(),
                source.wf(),
                source.filled(),
                old(destination).shape_eq(source),
                row <= source.rows,
                forall|r: int, c: int|
                    0 <= r < row && 0 <= c < source.cols ==> #[trigger] destination.cell(r, c)
                        == source.cell(r, c),
                forall|i: int|
                    0 <= i < old(destination).data@.len() && !old(destination).covered(i)
                        ==> destination.data@[i] == old(destination).data@[i],
            decreases source.rows - row,
        {
            let mut col: usize = 0;
            while col < source.cols
                invariant
                    destination.rows == old(destination).rows,
                    destination.cols == old(destination).cols,
                    destination.stride == old(destination).stride,
                    destination.data@.len() == old(destination).data@.len(),
                    old(destination).wf(),
                    old(destination).filled(),
                    destination.wf(),
                    destination.filled(),
                    source.wf(),
                    source.filled(),
                    old(destination).shape_eq(source),
                    row < source.rows,
                    col <= source.cols,
                    forall|r: int, c: int|
                        0 <= r < row && 0 <= c < source.cols ==> #[trigger] destination.cell(r, c)
                            == source.cell(r, c),
                    forall|c: int|
                        0 <= c < col ==> #[trigger] destination.cell(row as int, c)
                            == source.cell(row as int, c),
                    forall|i: int|
                        0 <= i < old(destination).data@.len() && !old(destination).covered(i)
                            ==> destination.data@[i] == old(destination).data@[i],
                decreases source.cols - col,
            {
                let value = Matrix::get_at(source, row, col);
                Matrix::set_at(destination, row, col, value);
                col = col + 1;
            }
            row = row + 1;
        }
        Ok(())
    }

    /// What `add` leaves behind: the accumulator keeps its layout, every
    /// cell holds the IEEE-754 sum of its old value and the addend's
    /// cell — so a cell gains nothing from an addend cell of `+0.0`
    /// unless it was `-0.0` or a NaN — and positions outside the logical
    /// cells are untouched.
    pub open spec fn add_post(m0: Matrix, addend: Matrix, m1: Matrix) -> bool {
        &&& m1.rows == m0.rows
        &&& m1.cols == m0.cols
        &&& m1.stride == m0.stride
        &&& m1.data@.len() == m0.data@.len()
        &&& forall|r: int, c: int|
            0 <= r < m0.rows && 0 <= c < m0.cols ==> #[trigger] m1.cell(r, c) == add_of(
                m0.cell(r, c),
                addend.cell(r, c),
            )
        &&& forall|r: int, c: int|
            0 <= r < m0.rows && 0 <= c < m0.cols && addend.cell(r, c) == ZERO_BITS && m0.cell(
                r,
                c,
            ) != NEG_ZERO_BITS && !is_nan(m0.cell(r, c)) ==> #[trigger] m1.cell(r, c) == m0.cell(
                r,
                c,
            )
        &&& forall|i: int|
            0 <= i < m0.data@.len() && !m0.covered(i) ==> m1.data@[i] == m0.data@[i]
    }

    /// Adds the addend into the accumulator cell by cell, in place; the
    /// two must agree on rows and columns, else nothing changes and a
    /// `ShapeMismatch` is reported.
    pub fn add(matrix_1: &mut Matrix, matrix_2: &Matrix) -> (res: Result<(), MatrixError>)
        requires
            old(matrix_1).wf(),
            old(matrix_1).filled(),
            matrix_2.wf(),
            matrix_2.filled(),
        ensures
            res is Ok <==> old(matrix_1).shape_eq(matrix_2),
            res is Err ==> *final(matrix_1) == *old(matrix_1) && res == Err::<(), MatrixError>(
                MatrixError::ShapeMismatch,
            ),
            res is Ok ==> Matrix::add_post(*old(matrix_1), *matrix_2, *final(matrix_1)),
            final(matrix_1).wf(),
            final(matrix_1).filled(),
    {
        if !(matrix_1.rows == matrix_2.rows && matrix_1.cols == matrix_2.cols) {
            return Err(MatrixError::ShapeMismatch);
        }
        let mut row: usize = 0;
        while row < matrix_2.rows
            invariant
                matrix_1.rows == old(matrix_1).rows,
                matrix_1.cols == old(matrix_1).cols,
                matrix_1.stride == old(matrix_1).stride,
                matrix_1.data@.len() == old(matrix_1).data@.len(),
                old(matrix_1).wf(),
                old(matrix_1).filled(),
                matrix_1.wf(),
                matrix_1.filled(),
                matrix_2.wf(),
                matrix_2.filled(),
                old(matrix_1).shape_eq(matrix_2),
                row <= matrix_2.rows,
                forall|r: int, c: int|
                    0 <= r < row && 0 <= c < matrix_2.cols ==> #[trigger] matrix_1.cell(r, c)
                        == add_of(old(matrix_1).cell(r, c), matrix_2.cell(r, c)),
                forall|r: int, c: int|
                    0 <= r < row && 0 <= c < matrix_2.cols && matrix_2.cell(r, c) == ZERO_BITS
                        && old(matrix_1).cell(r, c) != NEG_ZERO_BITS && !is_nan(
                        old(matrix_1).cell(r, c),
                    ) ==> #[trigger] matrix_1.cell(r, c) == old(matrix_1).cell(r, c),
                forall|r: int, c: int|
                    row <= r < matrix_2.rows && 0 <= c < matrix_2.cols
                        ==> #[trigger] matrix_1.cell(r, c) == old(matrix_1).cell(r, c),
                forall|i: int|
                    0 <= i < old(matrix_1).data@.len() && !old(matrix_1).covered(i)
                        ==> matrix_1.data@[i] == old(matrix_1).data@[i],
            decreases matrix_2.rows - row,
        {
            let mut col: usize = 0;
            while col < matrix_2.cols
                invariant
                    matrix_1.rows == old(matrix_1).rows,
                    matrix_1.cols == old(matrix_1).cols,
                    matrix_1.stride == old(matrix_1).stride,
                    matrix_1.data@.len() == old(matrix_1).data@.len(),
                    old(matrix_1).wf(),
                    old(matrix_1).filled(),
                    matrix_1.wf(),
                    matrix_1.filled(),
                    matrix_2.wf(),
                    matrix_2.filled(),
                    old(matrix_1).shape_eq(matrix_2),
                    row < matrix_2.rows,
                    col <= matrix_2.cols,
                    forall|r: int, c: int|
                        0 <= r < row && 0 <= c < matrix_2.cols ==> #[trigger] matrix_1.cell(r, c)
                            == add_of(old(matrix_1).cell(r, c), matrix_2.cell(r, c)),
                    forall|c: int|
                        0 <= c < col ==> #[trigger] matrix_1.cell(row as int, c) == add_of(
                            old(matrix_1).cell(row as int, c),
                            matrix_2.cell(row as int, c),
                        ),
                    forall|r: int, c: int|
                        0 <= r < row && 0 <= c < matrix_2.cols && matrix_2.cell(r, c) == ZERO_BITS
                            && old(matrix_1).cell(r, c) != NEG_ZERO_BITS && !is_nan(
                            old(matrix_1).cell(r, c),
                        ) ==> #[trigger] matrix_1.cell(r, c) == old(matrix_1).cell(r, c),
                    forall|c: int|
                        0 <= c < col && matrix_2.cell(row as int, c) == ZERO_BITS && old(
                            matrix_1,
                        ).cell(row as int, c) != NEG_ZERO_BITS && !is_nan(
                            old(matrix_1).cell(row as int, c),
                        ) ==> #[trigger] matrix_1.cell(row as int, c) == old(matrix_1).cell(
                            row as int,
                            c,
                        ),
                    forall|r: int, c: int|
                        row < r < matrix_2.rows && 0 <= c < matrix_2.cols
                            ==> #[trigger] matrix_1.cell(r, c) == old(matrix_1).cell(r, c),
                    forall|c: int|
                        col <= c < matrix_2.cols ==> #[trigger] matrix_1.cell(row as int, c)
                            == old(matrix_1).cell(row as int, c),
                    forall|i: int|
                        0 <= i < old(matrix_1).data@.len() && !old(matrix_1).covered(i)
                            ==> matrix_1.data@[i] == old(matrix_1).data@[i],
                decreases matrix_2.cols - col,
            {
                let current = Matrix::get_at(matrix_1, row, col);
                let addend = Matrix::get_at(matrix_2, row, col);
                let sum = scalar_add(current, addend);
                Matrix::set_at(matrix_1, row, col, sum);
                col = col + 1;
            }
            row = row + 1;
        }
        Ok(())
    }

    /// Whether `left` times `right` can be accumulated into `d`.
    pub open spec fn mul_compatible(d: &Matrix, left: &Matrix, right: &Matrix) -> bool {
        left.cols == right.rows && d.rows == left.rows && d.cols == right.cols
    }

    /// The value a destination cell starts from when a product is
    /// accumulated into it: its own value if the destination was already
    /// filled, else zero.
    pub open spec fn mul_base(d0: Matrix, r: int, c: int) -> u64 {
        if d0.filled() {
            d0.cell(r, c)
        } else {
            ZERO_BITS
        }
    }

    /// What `multiply` leaves behind: the destination keeps its shape
    /// and stride, and each cell holds its base value plus the dot
    /// product of the matching row of `a` and column of `b`, accumulated
    /// left to right in IEEE-754 double steps. A destination that was
    /// filled keeps its buffer length and its positions outside the
    /// logical cells; one that was not is zero-filled first.
    pub open spec fn multiply_post(d0: Matrix, a: Matrix, b: Matrix, d1: Matrix) -> bool {
        &&& d1.rows == d0.rows
        &&& d1.cols == d0.cols
        &&& d1.stride == d0.stride
        &&& d1.filled()
        &&& (d0.filled() ==> d1.data@.len() == d0.data@.len())
        &&& (!d0.filled() ==> d1.data@.len() == d0.rows * d0.cols)
        &&& forall|r: int, c: int|
            0 <= r < d0.rows && 0 <= c < d0.cols ==> #[trigger] d1.cell(r, c) == dot_seq(
                Matrix::mul_base(d0, r, c),
                a.row_seq(r),
                b.col_seq(c),
                a.cols as nat,
            )
        &&& (d0.filled() ==> forall|i: int|
            0 <= i < d0.data@.len() && !d0.covered(i) ==> d1.data@[i] == d0.data@[i])
    }

    /// Accumulates the product of `matrix_1` and `matrix_2` into the
    /// destination: an unfilled destination is zero-filled first, and the
    /// destination is an accumulator, never overwritten, so a second
    /// multiply into it adds a second product. The operands must satisfy
    /// multiplication compatibility, else nothing changes and a
    /// `ShapeMismatch` is reported.
    pub fn multiply(destination: &mut Matrix, matrix_1: &Matrix, matrix_2: &Matrix) -> (res:
        Result<(), MatrixError>)
        requires
            old(destination).wf(),
            matrix_1.wf(),
            matrix_1.filled(),
            matrix_2.wf(),
            matrix_2.filled(),
        ensures
            res is Ok <==> Matrix::mul_compatible(old(destination), matrix_1, matrix_2),
            res is Err ==> *final(destination) == *old(destination) && res == Err::<
                (),
                MatrixError,
            >(MatrixError::ShapeMismatch),
            res is Ok ==> Matrix::multiply_post(
                *old(destination),
                *matrix_1,
                *matrix_2,
                *final(destination),
            ),
            final(destination).wf(),
    {
        if !(matrix_1.cols == matrix_2.rows && destination.rows == matrix_1.rows
            && destination.cols == matrix_2.cols) {
            return Err(MatrixError::ShapeMismatch);
        }
        if destination.data.len() == 0 {
            Matrix::fill(destination, ZERO_BITS);
        }
        let ghost start = *destination;
        let inner_size = matrix_1.cols;
        let mut row: usize = 0;
        while row < destination.rows
            invariant
                destination.rows == start.rows,
                destination.cols == start.cols,
                destination.stride == start.stride,
                destination.data@.len() == start.data@.len(),
                start.wf(),
                start.filled(),
                destination.wf(),
                destination.filled(),
                matrix_1.wf(),
                matrix_1.filled(),
                matrix_2.wf(),
                matrix_2.filled(),
                inner_size == matrix_1.cols,
                matrix_1.cols == matrix_2.rows,
                start.rows == matrix_1.rows,
                start.cols == matrix_2.cols,
                row <= start.rows,
                forall|r: int, c: int|
                    0 <= r < row && 0 <= c < start.cols ==> #[trigger] destination.cell(r, c)
                        == dot_seq(
                        start.cell(r, c),
                        matrix_1.row_seq(r),
                        matrix_2.col_seq(c),
                        matrix_1.cols as nat,
                    ),
                forall|r: int, c: int|
                    row <= r < start.rows && 0 <= c < start.cols
                        ==> #[trigger] destination.cell(r, c) == start.cell(r, c),
                forall|i: int|
                    0 <= i < start.data@.len() && !start.covered(i) ==> destination.data@[i]
                        == start.data@[i],
            decreases start.rows - row,
        {
            let mut col: usize = 0;
            while col < destination.cols
                invariant
                    destination.rows == start.rows,
                    destination.cols == start.cols,
                    destination.stride == start.stride,
                    destination.data@.len() == start.data@.len(),
                    start.wf(),
                    start.filled(),
                    destination.wf(),
                    destination.filled(),
                    matrix_1.wf(),
                    matrix_1.filled(),
                    matrix_2.wf(),
                    matrix_2.filled(),
                    inner_size == matrix_1.cols,
                    matrix_1.cols == matrix_2.rows,
                    start.rows == matrix_1.rows,
                    start.cols == matrix_2.cols,
                    row < start.rows,
                    col <= start.cols,
                    forall|r: int, c: int|
                        0 <= r < row && 0 <= c < start.cols ==> #[trigger] destination.cell(r, c)
                            == dot_seq(
                            start.cell(r, c),
                            matrix_1.row_seq(r),
                            matrix_2.col_seq(c),
                            matrix_1.cols as nat,
                        ),
                    forall|c: int|
                        0 <= c < col ==> #[trigger] destination.cell(row as int, c) == dot_seq(
                            start.cell(row as int, c),
                            matrix_1.row_seq(row as int),
                            matrix_2.col_seq(c),
                            matrix_1.cols as nat,
                        ),
                    forall|r: int, c: int|
                        row < r < start.rows && 0 <= c < start.cols
                            ==> #[trigger] destination.cell(r, c) == start.cell(r, c),
                    forall|c: int|
                        col <= c < start.cols ==> #[trigger] destination.cell(row as int, c)
                            == start.cell(row as int, c),
                    forall|i: int|
                        0 <= i < start.data@.len() && !start.covered(i) ==> destination.data@[i]
                            == start.data@[i],
                decreases start.cols - col,
            {
                let mut inner: usize = 0;
                while inner < inner_size
                    invariant
                        destination.rows == start.rows,
                        destination.cols == start.cols,
                        destination.stride == start.stride,
                        destination.data@.len() == start.data@.len(),
                        start.wf(),
                        start.filled(),
                        destination.wf(),
                        destination.filled(),
                        matrix_1.wf(),
                        matrix_1.filled(),
                        matrix_2.wf(),
                        matrix_2.filled(),
                        inner_size == matrix_1.cols,
                        matrix_1.cols == matrix_2.rows,
                        start.rows == matrix_1.rows,
                        start.cols == matrix_2.cols,
                        row < start.rows,
                        col < start.cols,
                        inner <= inner_size,
                        forall|r: int, c: int|
                            0 <= r < row && 0 <= c < start.cols ==> #[trigger] destination.cell(
                                r,
                                c,
                            ) == dot_seq(
                                start.cell(r, c),
                                matrix_1.row_seq(r),
                                matrix_2.col_seq(c),
                                matrix_1.cols as nat,
                            ),
                        forall|c: int|
                            0 <= c < col ==> #[trigger] destination.cell(row as int, c)
                                == dot_seq(
                                start.cell(row as int, c),
                                matrix_1.row_seq(row as int),
                                matrix_2.col_seq(c),
                                matrix_1.cols as nat,
                            ),
                        destination.cell(row as int, col as int) == dot_seq(
                            start.cell(row as int, col as int),
                            matrix_1.row_seq(row as int),
                            matrix_2.col_seq(col as int),
                            inner as nat,
                        ),
                        forall|r: int, c: int|
                            row < r < start.rows && 0 <= c < start.cols
                                ==> #[trigger] destination.cell(r, c) == start.cell(r, c),
                        forall|c: int|
                            col < c < start.cols ==> #[trigger] destination.cell(row as int, c)
                                == start.cell(row as int, c),
                        forall|i: int|
                            0 <= i < start.data@.len() && !start.covered(i)
                                ==> destination.data@[i] == start.data@[i],
                    decreases inner_size - inner,
                {
                    let left = Matrix::get_at(matrix_1, row, inner);
                    let right = Matrix::get_at(matrix_2, inner, col);
                    let product = scalar_mul(left, right);
                    let current = Matrix::get_at(destination, row, col);
                    let sum = scalar_add(current, product);
                    Matrix::set_at(destination, row, col, sum);
                    inner = inner + 1;
                }
                col = col + 1;
            }
            row = row + 1;
        }
        proof {
            assert forall|r: int, c: int|
                0 <= r < old(destination).rows && 0 <= c < old(destination).cols
                    implies #[trigger] destination.cell(r, c) == dot_seq(
                    Matrix::mul_base(*old(destination), r, c),
                    matrix_1.row_seq(r),
                    matrix_2.col_seq(c),
                    matrix_1.cols as nat,
                ) by {
                assert(start.cell(r, c) == Matrix::mul_base(*old(destination), r, c));
            }
        }
        Ok(())
    }

    /// What the elementwise activation leaves behind: the layout is
    /// kept, every cell holds the logistic function of its old value,
    /// and positions outside the logical cells are untouched.
    pub open spec fn sigmoid_post(m0: Matrix, m1: Matrix) -> bool {
        &&& m1.rows == m0.rows
        &&& m1.cols == m0.cols
        &&& m1.stride == m0.stride
        &&& m1.data@.len() == m0.data@.len()
        &&& forall|r: int, c: int|
            0 <= r < m0.rows && 0 <= c < m0.cols ==> #[trigger] m1.cell(r, c) == sigmoid_spec(
                m0.cell(r, c),
            )
        &&& forall|i: int|
            0 <= i < m0.data@.len() && !m0.covered(i) ==> m1.data@[i] == m0.data@[i]
    }

    /// Overwrites every cell with the logistic function of its value,
    /// in place.
    pub fn sigmoid(matrix: &mut Matrix)
        requires
            old(matrix).wf(),
            old(matrix).filled(),
        ensures
            Matrix::sigmoid_post(*old(matrix), *final(matrix)),
            final(matrix).wf(),
            final(matrix).filled(),
    {
        let mut row: usize = 0;
        while row < matrix.rows
            invariant
                matrix.rows == old(matrix).rows,
                matrix.cols == old(matrix).cols,
                matrix.stride == old(matrix).stride,
                matrix.data@.len() == old(matrix).data@.len(),
                old(matrix).wf(),
                old(matrix).filled(),
                matrix.wf(),
                matrix.filled(),
                row <= matrix.rows,
                forall|r: int, c: int|
                    0 <= r < row && 0 <= c < matrix.cols ==> #[trigger] matrix.cell(r, c)
                        == sigmoid_spec(old(matrix).cell(r, c)),
                forall|r: int, c: int|
                    row <= r < matrix.rows && 0 <= c < matrix.cols ==> #[trigger] matrix.cell(r, c)
                        == old(matrix).cell(r, c),
                forall|i: int|
                    0 <= i < old(matrix).data@.len() && !old(matrix).covered(i)
                        ==> matrix.data@[i] == old(matrix).data@[i],
            decreases matrix.rows - row,
        {
            let mut col: usize = 0;
            while col < matrix.cols
                invariant
                    matrix.rows == old(matrix).rows,
                    matrix.cols == old(matrix).cols,
                    matrix.stride == old(matrix).stride,
                    matrix.data@.len() == old(matrix).data@.len(),
                    old(matrix).wf(),
                    old(matrix).filled(),
                    matrix.wf(),
                    matrix.filled(),
                    row < matrix.rows,
                    col <= matrix.cols,
                    forall|r: int, c: int|
                        0 <= r < row && 0 <= c < matrix.cols ==> #[trigger] matrix.cell(r, c)
                            == sigmoid_spec(old(matrix).cell(r, c)),
                    forall|c: int|
                        0 <= c < col ==> #[trigger] matrix.cell(row as int, c) == sigmoid_spec(
                            old(matrix).cell(row as int, c),
                        ),
                    forall|r: int, c: int|
                        row < r < matrix.rows && 0 <= c < matrix.cols ==> #[trigger] matrix.cell(
                            r,
                            c,
                        ) == old(matrix).cell(r, c),
                    forall|c: int|
                        col <= c < matrix.cols ==> #[trigger] matrix.cell(row as int, c) == old(
                            matrix,
                        ).cell(row as int, c),
                    forall|i: int|
                        0 <= i < old(matrix).data@.len() && !old(matrix).covered(i)
                            ==> matrix.data@[i] == old(matrix).data@[i],
                decreases matrix.cols - col,
            {
                let current = Matrix::get_at(matrix, row, col);
                let activated = sigmoid(current);
                Matrix::set_at(matrix, row, col, activated);
                col = col + 1;
            }
            row = row + 1;
        }
    }

    /// Overwrites every cell with `+0.0`, in place, resetting a filled
    /// matrix so that a product can be accumulated into it afresh.
    pub fn zero_cells(matrix: &mut Matrix)
        requires
            old(matrix).wf(),
            old(matrix).filled(),
        ensures
            final(matrix).rows == old(matrix).rows,
            final(matrix).cols == old(matrix).cols,
            final(matrix).stride == old(matrix).stride,
            final(matrix).data@.len() == old(matrix).data@.len(),
            final(matrix).wf(),
            final(matrix).filled(),
            forall|r: int, c: int|
                0 <= r < old(matrix).rows && 0 <= c < old(matrix).cols
                    ==> #[trigger] final(matrix).cell(r, c) == ZERO_BITS,
            forall|i: int|
                0 <= i < old(matrix).data@.len() && !old(matrix).covered(i)
                    ==> final(matrix).data@[i] == old(matrix).data@[i],
    {
        let mut row: usize = 0;
        while row < matrix.rows
            invariant
                matrix.rows == old(matrix).rows,
                matrix.cols == old(matrix).cols,
                matrix.stride == old(matrix).stride,
                matrix.data@.len() == old(matrix).data@.len(),
                old(matrix).wf(),
                old(matrix).filled(),
                matrix.wf(),
                matrix.filled(),
                row <= matrix.rows,
                forall|r: int, c: int|
                    0 <= r < row && 0 <= c < matrix.cols ==> #[trigger] matrix.cell(r, c)
                        == ZERO_BITS,
                forall|i: int|
                    0 <= i < old(matrix).data@.len() && !old(matrix).covered(i)
                        ==> matrix.data@[i] == old(matrix).data@[i],
            decreases matrix.rows - row,
        {
            let mut col: usize = 0;
            while col < matrix.cols
                invariant
                    matrix.rows == old(matrix).rows,
                    matrix.cols == old(matrix).cols,
                    matrix.stride == old(matrix).stride,
                    matrix.data@.len() == old(matrix).data@.len(),
                    old(matrix).wf(),
                    old(matrix).filled(),
                    matrix.wf(),
                    matrix.filled(),
                    row < matrix.rows,
                    col <= matrix.cols,
                    forall|r: int, c: int|
                        0 <= r < row && 0 <= c < matrix.cols ==> #[trigger] matrix.cell(r, c)
                            == ZERO_BITS,
                    forall|c: int|
                        0 <= c < col ==> #[trigger] matrix.cell(row as int, c) == ZERO_BITS,
                    forall|i: int|
                        0 <= i < old(matrix).data@.len() && !old(matrix).covered(i)
                            ==> matrix.data@[i] == old(matrix).data@[i],
                decreases matrix.cols - col,
            {
                Matrix::set_at(matrix, row, col, ZERO_BITS);
                col = col + 1;
            }
            row = row + 1;
        }
    }

    /// Returns a new one-row matrix holding a deep copy of logical row
    /// `row`; the copy keeps the stride of its source, as a row sliced
    /// from a wider table would.
    pub fn row(matrix: &Matrix, row: usize) -> (res: Matrix)
        requires
            matrix.wf(),
            matrix.filled(),
            row < matrix.rows,
        ensures
            res.wf(),
            res.filled(),
            res.rows == 1,
            res.cols == matrix.cols,
            res.stride == matrix.stride,
            res.data@.len() == matrix.cols,
            forall|c: int|
                0 <= c < matrix.cols ==> #[trigger] res.cell(0, c) == matrix.cell(row as int, c),
    {
        let mut values: Vec<u64> = Vec::new();
        let mut col: usize = 0;
        while col < matrix.cols
            invariant
                matrix.wf(),
                matrix.filled(),
                row < matrix.rows,
                col <= matrix.cols,
                values@.len() == col,
                forall|c: int| 0 <= c < col ==> values@[c] == matrix.cell(row as int, c),
            decreases matrix.cols - col,
        {
            let value = Matrix::get_at(matrix, row, col);
            values.push(value);
            col = col + 1;
        }
        let res = Matrix { rows: 1, cols: matrix.cols, stride: matrix.stride, data: values };
        proof {
            assert forall|c: int|
                0 <= c < matrix.cols implies #[trigger] res.cell(0, c) == matrix.cell(
                row as int,
                c,
            ) by {
                assert(res.idx(0, c) == c);
            }
        }
        res
    }

    /// The lower bound used by `fill_random`: zero when none is given.
    pub open spec fn resolved_min(min: Option<u64>) -> u64 {
        match min {
            Some(v) => v,
            None => ZERO_BITS,
        }
    }

    /// The upper bound used by `fill_random`: ten when none is given.
    pub open spec fn resolved_max(max: Option<u64>) -> u64 {
        match max {
            Some(v) => v,
            None => TEN_BITS,
        }
    }

    /// Populates a matrix that was allocated but never filled with
    /// uniformly distributed scalars from `[min, max)`, taking zero and
    /// ten for bounds that are not given.
    pub fn fill_random(matrix: &mut Matrix, min: Option<u64>, max: Option<u64>)
        requires
            old(matrix).wf(),
            !old(matrix).filled(),
            float_lt(Matrix::resolved_min(min), Matrix::resolved_max(max)),
        ensures
            final(matrix).rows == old(matrix).rows,
            final(matrix).cols == old(matrix).cols,
            final(matrix).stride == old(matrix).stride,
            final(matrix).data@.len() == old(matrix).rows * old(matrix).cols,
            final(matrix).wf(),
            final(matrix).filled(),
            forall|r: int, c: int|
                0 <= r < old(matrix).rows && 0 <= c < old(matrix).cols ==> uniform_draw(
                    Matrix::resolved_min(min),
                    Matrix::resolved_max(max),
                    #[trigger] final(matrix).cell(r, c),
                ),
    {
        let max_random = match max {
            Some(x) => x,
            None => TEN_BITS,
        };
        let min_random = match min {
            Some(x) => x,
            None => ZERO_BITS,
        };
        let total = matrix.rows * matrix.cols;
        let mut i: usize = 0;
        while i < total
            invariant
                matrix.rows == old(matrix).rows,
                matrix.cols == old(matrix).cols,
                matrix.stride == old(matrix).stride,
                total == matrix.rows * matrix.cols,
                old(matrix).wf(),
                min_random == Matrix::resolved_min(min),
                max_random == Matrix::resolved_max(max),
                float_lt(min_random, max_random),
                i <= total,
                matrix.data@.len() == i,
                forall|j: int|
                    0 <= j < i ==> uniform_draw(min_random, max_random, #[trigger] matrix.data@[j]),
            decreases total - i,
        {
            let value = rand_float(min_random, max_random);
            matrix.data.push(value);
            i = i + 1;
        }
        proof {
            lemma_full_span(matrix.rows as int, matrix.cols as int);
            assert forall|r: int, c: int|
                0 <= r < old(matrix).rows && 0 <= c < old(matrix).cols implies uniform_draw(
                Matrix::resolved_min(min),
                Matrix::resolved_max(max),
                #[trigger] matrix.cell(r, c),
            ) by {
                lemma_idx_bound(
                    r,
                    c,
                    matrix.rows as int,
                    matrix.cols as int,
                    matrix.stride as int,
                );
            }
        }
    }
}

/// After one cell write, the logical contents are the old contents with
/// that one row updated at that one column.
pub proof fn lemma_views_after_write(m0: Matrix, m1: Matrix, row: int, col: int, value: u64)
    requires
        0 <= row < m0.rows,
        0 <= col < m0.cols,
        m1.rows == m0.rows,
        m1.cols == m0.cols,
        m1.stride == m0.stride,
        m1.cell(row, col) == value,
        forall|r: int, c: int|
            0 <= r < m0.rows && 0 <= c < m0.cols && !(r == row && c == col)
                ==> #[trigger] m1.cell(r, c) == m0.cell(r, c),
    ensures
        m1.row_seq(row) == m0.row_seq(row).update(col, value),
        forall|r: int| 0 <= r < m0.rows && r != row ==> #[trigger] m1.row_seq(r) == m0.row_seq(r),
        m1.rows_view() == m0.rows_view().update(row, m0.row_seq(row).update(col, value)),
{
    assert forall|r: int| 0 <= r < m0.rows && r != row implies #[trigger] m1.row_seq(r)
        == m0.row_seq(r) by {
        assert(m1.row_seq(r) =~= m0.row_seq(r));
    }
    assert(m1.row_seq(row) =~= m0.row_seq(row).update(col, value));
    assert(m1.rows_view() =~~= m0.rows_view().update(row, m0.row_seq(row).update(col, value)));
}

/// Two matrices of the same dimensions with equal cells have equal
/// logical contents.
pub proof fn lemma_views_eq(m0: Matrix, m1: Matrix)
    requires
        m1.rows == m0.rows,
        m1.cols == m0.cols,
        forall|r: int, c: int|
            0 <= r < m0.rows && 0 <= c < m0.cols ==> #[trigger] m1.cell(r, c) == m0.cell(r, c),
    ensures
        m1.rows_view() == m0.rows_view(),
        forall|r: int| 0 <= r < m0.rows ==> #[trigger] m1.row_seq(r) == m0.row_seq(r),
{
    assert forall|r: int| 0 <= r < m0.rows implies #[trigger] m1.row_seq(r) == m0.row_seq(r) by {
        assert(m1.row_seq(r) =~= m0.row_seq(r));
    }
    assert(m1.rows_view() =~~= m0.rows_view());
}

/// Two matrices with the same layout, the same cells and the same
/// scalars outside the logical cells have equal buffers.
pub proof fn lemma_data_pointwise(m1: Matrix, m2: Matrix)
    requires
        m1.wf(),
        m2.rows == m1.rows,
        m2.cols == m1.cols,
        m2.stride == m1.stride,
        m2.data@.len() == m1.data@.len(),
        forall|r: int, c: int|
            0 <= r < m1.rows && 0 <= c < m1.cols ==> #[trigger] m2.cell(r, c) == m1.cell(r, c),
        forall|i: int| 0 <= i < m1.data@.len() && !m1.covered(i) ==> m2.data@[i] == m1.data@[i],
    ensures
        m2.data@ == m1.data@,
{
    assert forall|i: int| 0 <= i < m1.data@.len() implies m2.data@[i] == m1.data@[i] by {
        if m1.covered(i) {
            let (r, c) = choose|r: int, c: int|
                0 <= r < m1.rows && 0 <= c < m1.cols && i == #[trigger] pos_of(
                    m1.stride as int,
                    r,
                    c,
                );
            assert(m2.cell(r, c) == m1.cell(r, c));
        }
    }
    assert(m2.data@ =~= m1.data@);
}

/// Element addressing round-trip: after a write of `value` at a valid
/// `(row, col)`, reading that cell yields exactly the written value.
/// The hypotheses are what `set_at` ensures; the conclusion is what
/// `get_at` then returns.
pub proof fn lemma_write_then_read(m0: Matrix, m1: Matrix, row: int, col: int, value: u64)
    requires
        m0.wf(),
        m0.filled(),
        0 <= row < m0.rows,
        0 <= col < m0.cols,
        m1.rows == m0.rows,
        m1.cols == m0.cols,
        m1.stride == m0.stride,
        m1.data@ == m0.data@.update(m0.idx(row, col), value),
    ensures
        m1.cell(row, col) == value,
{
    lemma_idx_bound(row, col, m0.rows as int, m0.cols as int, m0.stride as int);
}

/// Reading a matrix filled from a value buffer back in row-major order
/// reproduces the buffer's exact ordering: the hypotheses are what
/// `fill_vec` ensures of a matrix with its own stride.
pub proof fn lemma_fill_values_row_major(m1: Matrix, values: Seq<u64>, row: int, col: int)
    requires
        m1.wf(),
        m1.filled(),
        m1.stride == m1.cols,
        m1.data@ == values,
        0 <= row < m1.rows,
        0 <= col < m1.cols,
    ensures
        m1.cell(row, col) == values[row * m1.cols + col],
{
    lemma_idx_bound(row, col, m1.rows as int, m1.cols as int, m1.stride as int);
}

/// Copying the same source twice in a row is idempotent: the second
/// copy leaves the destination exactly — buffer, shape and stride — as
/// the first copy left it.
pub proof fn lemma_copy_idempotent(d0: Matrix, d1: Matrix, d2: Matrix, s: Matrix)
    requires
        d0.wf(),
        d0.filled(),
        s.wf(),
        s.filled(),
        d0.shape_eq(&s),
        Matrix::copy_post(d0, s, d1),
        Matrix::copy_post(d1, s, d2),
    ensures
        d2.rows == d1.rows,
        d2.cols == d1.cols,
        d2.stride == d1.stride,
        d2.data@ == d1.data@,
{
    assert forall|i: int|
        0 <= i < d1.data@.len() && !d1.covered(i) implies d2.data@[i] == d1.data@[i] by {}
    lemma_data_pointwise(d1, d2);
}

/// Accumulating a product and then adding an all-zero matrix of equal
/// shape is a no-op on the result, as long as the product left no
/// negative-zero and no NaN cells — adding `+0.0` to `-0.0` flips its
/// sign bit, and a NaN need not keep its payload.
pub proof fn lemma_multiply_then_add_zero(
    d0: Matrix,
    a: Matrix,
    b: Matrix,
    d1: Matrix,
    z: Matrix,
    d2: Matrix,
)
    requires
        d0.wf(),
        Matrix::mul_compatible(&d0, &a, &b),
        Matrix::multiply_post(d0, a, b, d1),
        d1.wf(),
        z.wf(),
        z.filled(),
        d1.shape_eq(&z),
        forall|r: int, c: int| 0 <= r < z.rows && 0 <= c < z.cols ==> #[trigger] z.cell(r, c)
            == ZERO_BITS,
        forall|r: int, c: int|
            0 <= r < d1.rows && 0 <= c < d1.cols ==> !is_nan(#[trigger] d1.cell(r, c))
                && d1.cell(r, c) != NEG_ZERO_BITS,
        Matrix::add_post(d1, z, d2),
    ensures
        d2.rows == d1.rows,
        d2.cols == d1.cols,
        d2.stride == d1.stride,
        d2.data@ == d1.data@,
{
    lemma_data_pointwise(d1, d2);
}

} // verus!
