//! The matrix container: a fixed shape chosen at construction and a
//! row-major buffer of binary64 bit patterns.

use crate::scalar::{fma_step, unit_from_fraction, TEN_BITS, UNIT_DENOM};
use rand::Rng;
use vstd::prelude::*;

verus! {

/// A dense `rows x cols` matrix of binary64 values, each cell held as its
/// 64-bit pattern, stored row-major: cell `(i, j)` sits at `i * cols + j`.
/// The shape never changes after construction; only cell values do.
pub struct Matrix {
    pub rows: usize,
    pub cols: usize,
    pub data: Vec<u64>,
}

impl View for Matrix {
    type V = Seq<Seq<u64>>;

    /// The matrix as a sequence of rows, each a sequence of cell patterns.
    open spec fn view(&self) -> Seq<Seq<u64>> {
        Seq::new(
            self.rows as nat,
            |i: int| Seq::new(self.cols as nat, |j: int| self.data@[i * self.cols + j]),
        )
    }
}

/// The bit pattern of a binary64 value in `[0, 10)`: nonnegative binary64
/// values order the same way as their bit patterns, so these are exactly the
/// patterns below `TEN_BITS`.
pub open spec fn cell_in_range(c: u64) -> bool {
    c < TEN_BITS
}

/// Relies on rand's `Rng::random_range` over the integer range `0..bound`:
/// it returns a uniformly drawn integer that is at least 0 and strictly
/// below `bound`, and panics only when the range is empty.
#[verifier::external_body]
fn random_below(bound: u64) -> (k: u64)
    requires
        bound >= 1,
    ensures
        k < bound,
{
    rand::rng().random_range(0..bound)
}

/// One random cell: a unit value `k / 2^52` with `k` drawn uniformly from
/// `[0, 2^52)`, scaled by 10.0. The scaled value lies below 10.0, but the
/// contracts name the arithmetic without interpreting it, so the bound is
/// enforced here: a pattern at or above `TEN_BITS` (which the arithmetic
/// never produces) is replaced by the largest pattern below it.
fn random_cell() -> (c: u64)
    ensures
        cell_in_range(c),
{
    let k = random_below(UNIT_DENOM);
    let unit = unit_from_fraction(k);
    let scaled = fma_step(0, unit, TEN_BITS);
    if scaled >= TEN_BITS {
        TEN_BITS - 1
    } else {
        scaled
    }
}

impl Matrix {
    /// The shape invariant: the buffer holds exactly one cell per position.
    pub open spec fn wf(&self) -> bool {
        self.data@.len() == self.rows * self.cols
    }

    /// Where cell `(i, j)` sits in the row-major buffer, and that the view
    /// reads it from there.
    pub proof fn lemma_cell_index(&self, i: int, j: int)
        requires
            self.wf(),
            0 <= i < self.rows,
            0 <= j < self.cols,
        ensures
            0 <= i * self.cols + j < self.data@.len(),
            self@[i][j] == self.data@[i * self.cols + j],
    {
        let r = self.rows as int;
        let c = self.cols as int;
        assert(i * c + j < r * c) by (nonlinear_arith)
            requires
                0 <= i < r,
                0 <= j < c,
        ;
        assert(0 <= i * c) by (nonlinear_arith)
            requires
                0 <= i,
                0 <= c,
        ;
    }

    /// A matrix of the given shape with every cell 0.0 (bit pattern 0).
    pub fn zeros(rows: usize, cols: usize) -> (m: Matrix)
        requires
            rows * cols <= usize::MAX,
        ensures
            m.wf(),
            m.rows == rows,
            m.cols == cols,
            forall|i: int, j: int|
                0 <= i < rows && 0 <= j < cols ==> #[trigger] m@[i][j] == 0u64,
    {
        let total: usize = rows * cols;
        let mut data: Vec<u64> = Vec::new();
        let mut t: usize = 0;
        while t < total
            invariant
                t <= total,
                data@.len() == t,
                forall|p: int| 0 <= p < t ==> #[trigger] data@[p] == 0u64,
            decreases total - t,
        {
            data.push(0u64);
            t = t + 1;
        }
        let m = Matrix { rows, cols, data };
        proof {
            assert forall|i: int, j: int|
                0 <= i < rows && 0 <= j < cols implies #[trigger] m@[i][j] == 0u64 by {
                m.lemma_cell_index(i, j);
            }
        }
        m
    }

    /// A matrix of the given shape with every cell drawn independently and
    /// uniformly from the binary64 values `(k / 2^52) * 10.0`, `k < 2^52`:
    /// each cell lies in `[0, 10)`.
    pub fn random(rows: usize, cols: usize) -> (m: Matrix)
        requires
            rows * cols <= usize::MAX,
        ensures
            m.wf(),
            m.rows == rows,
            m.cols == cols,
            forall|i: int, j: int|
                0 <= i < rows && 0 <= j < cols ==> cell_in_range(#[trigger] m@[i][j]),
    {
        let total: usize = rows * cols;
        let mut data: Vec<u64> = Vec::new();
        let mut t: usize = 0;
        while t < total
            invariant
                t <= total,
                data@.len() == t,
                forall|p: int| 0 <= p < t ==> cell_in_range(#[trigger] data@[p]),
            decreases total - t,
        {
            data.push(random_cell());
            t = t + 1;
        }
        let m = Matrix { rows, cols, data };
        proof {
            assert forall|i: int, j: int|
                0 <= i < rows && 0 <= j < cols implies cell_in_range(#[trigger] m@[i][j]) by {
                m.lemma_cell_index(i, j);
            }
        }
        m
    }

    /// The fixed row count.
    pub fn row_count(&self) -> (r: usize)
        ensures
            r == self.rows,
    {
        self.rows
    }

    /// The fixed column count.
    pub fn col_count(&self) -> (c: usize)
        ensures
            c == self.cols,
    {
        self.cols
    }

    /// The bit pattern of cell `(i, j)`.
    pub fn at(&self, i: usize, j: usize) -> (v: u64)
        requires
            self.wf(),
            i < self.rows,
            j < self.cols,
        ensures
            v == self@[i as int][j as int],
    {
        // Learn that the buffer length, hence every cell index, fits in usize.
        let _buf_len = self.data.len();
        proof {
            self.lemma_cell_index(i as int, j as int);
        }
        self.data[i * self.cols + j]
    }

    /// Writes the bit pattern `v` into cell `(i, j)`, leaving every other
    /// cell and the shape unchanged.
    pub fn set(&mut self, i: usize, j: usize, v: u64)
        requires
            old(self).wf(),
            i < old(self).rows,
            j < old(self).cols,
        ensures
            final(self).wf(),
            final(self).rows == old(self).rows,
            final(self).cols == old(self).cols,
            final(self)@ == old(self)@.update(
                i as int,
                old(self)@[i as int].update(j as int, v),
            ),
    {
        // Learn that the buffer length, hence every cell index, fits in usize.
        let _buf_len = self.data.len();
        proof {
            self.lemma_cell_index(i as int, j as int);
        }
        let idx: usize = i * self.cols + j;
        self.data.set(idx, v);
        proof {
            let updated = old(self)@.update(i as int, old(self)@[i as int].update(j as int, v));
            assert forall|r: int| 0 <= r < self.rows implies self@[r] =~= updated[r] by {
                assert forall|c: int| 0 <= c < self.cols implies self@[r][c] == updated[r][c] by {
                    old(self).lemma_cell_index(r, c);
                    self.lemma_cell_index(r, c);
                    if r == i && c == j {
                    } else {
                        assert(r * self.cols + c != i * self.cols + j) by (nonlinear_arith)
                            requires
                                0 <= r < self.rows as int,
                                0 <= c < self.cols as int,
                                0 <= i < self.rows as int,
                                0 <= j < self.cols as int,
                                !(r == i && c == j),
                        ;
                    }
                }
            }
            assert(self@ =~~= updated);
        }
    }
}

} // verus!
