//! The multiplication kernels and their shared specification.
//!
//! Both kernels compute, for every output cell `(i, j)`, the left-to-right
//! accumulation `((0 + a[i][0]*b[0][j]) + a[i][1]*b[1][j]) + ...` in binary64,
//! one rounding per multiply and per add. `product_view` states that cell for
//! cell over `fma_bits`, so the two kernels are provably bit-identical.

use crate::matrix::Matrix;
use crate::scalar::{fma_bits, fma_step};
use rayon::iter::{IntoParallelIterator, ParallelIterator};
use vstd::prelude::*;

verus! {

/// Why a kernel call was rejected before any cell was computed.
#[derive(Clone, Copy, Debug, PartialEq, Eq)]
pub enum KernelError {
    /// The shapes do not fit: multiplying `(m, k)` by `(k, n)` needs a
    /// `(m, n)` target.
    Shape,
    /// The worker count is zero, which configures no pool at all.
    Config,
}

/// The shape precondition of `C = A x B`: inner dimensions agree and the
/// target has the product's shape.
pub open spec fn shapes_ok(a: &Matrix, b: &Matrix, t: &Matrix) -> bool {
    &&& a.cols == b.rows
    &&& t.rows == a.rows
    &&& t.cols == b.cols
}

/// The accumulator after the first `n` terms of the dot product of row
/// `arow` with column `j` of `b`: 0 at first, then one fused
/// multiply-accumulate step per term, in ascending order of the contraction
/// index.
pub open spec fn dot_prefix(arow: Seq<u64>, b: Seq<Seq<u64>>, j: int, n: int) -> u64
    decreases n,
{
    if n <= 0 {
        0u64
    } else {
        fma_bits(dot_prefix(arow, b, j, n - 1), arow[n - 1], b[n - 1][j])
    }
}

/// Output cell `(i, j)`: the full dot product of row `i` of `a` with column
/// `j` of `b`, accumulated left to right.
pub open spec fn product_cell(a: Seq<Seq<u64>>, b: Seq<Seq<u64>>, i: int, j: int) -> u64 {
    dot_prefix(a[i], b, j, b.len() as int)
}

/// Output row `i` of the product, `n` cells wide.
pub open spec fn row_view(a: Seq<Seq<u64>>, b: Seq<Seq<u64>>, n: nat, i: int) -> Seq<u64> {
    Seq::new(n, |j: int| product_cell(a, b, i, j))
}

/// The whole `m x n` product of `a` and `b`.
pub open spec fn product_view(a: Seq<Seq<u64>>, b: Seq<Seq<u64>>, m: nat, n: nat) -> Seq<
    Seq<u64>,
> {
    Seq::new(m, |i: int| row_view(a, b, n, i))
}

/// One output cell, by the inner loop over the contraction index.
fn compute_cell(a: &Matrix, b: &Matrix, i: usize, j: usize) -> (c: u64)
    requires
        a.wf(),
        b.wf(),
        a.cols == b.rows,
        i < a.rows,
        j < b.cols,
    ensures
        c == product_cell(a@, b@, i as int, j as int),
{
    let mut acc: u64 = 0;
    let mut k: usize = 0;
    // Learn that the buffer lengths, hence every cell index, fit in usize.
    let _a_len = a.data.len();
    let _b_len = b.data.len();
    while k < a.cols
        invariant
            a.wf(),
            b.wf(),
            a.cols == b.rows,
            i < a.rows,
            j < b.cols,
            k <= a.cols,
            a.data@.len() <= usize::MAX,
            b.data@.len() <= usize::MAX,
            acc == dot_prefix(a@[i as int], b@, j as int, k as int),
        decreases a.cols - k,
    {
        proof {
            a.lemma_cell_index(i as int, k as int);
            b.lemma_cell_index(k as int, j as int);
        }
        let x = a.data[i * a.cols + k];
        let y = b.data[k * b.cols + j];
        acc = fma_step(acc, x, y);
        k = k + 1;
    }
    proof {
        assert(b@.len() == b.rows);
    }
    acc
}

/// One output row, by the middle loop over the output column.
fn compute_row(a: &Matrix, b: &Matrix, i: usize) -> (row: Vec<u64>)
    requires
        a.wf(),
        b.wf(),
        a.cols == b.rows,
        i < a.rows,
    ensures
        row@ == row_view(a@, b@, b.cols as nat, i as int),
{
    let mut row: Vec<u64> = Vec::new();
    let mut j: usize = 0;
    while j < b.cols
        invariant
            a.wf(),
            b.wf(),
            a.cols == b.rows,
            i < a.rows,
            j <= b.cols,
            row@.len() == j,
            forall|q: int|
                0 <= q < j ==> #[trigger] row@[q] == product_cell(a@, b@, i as int, q),
        decreases b.cols - j,
    {
        let c = compute_cell(a, b, i, j);
        row.push(c);
        j = j + 1;
    }
    proof {
        assert(row@ =~= row_view(a@, b@, b.cols as nat, i as int));
    }
    row
}

/// Replaces the target's buffer with the given rows, shape unchanged.
fn write_rows(target: &mut Matrix, rows: Vec<Vec<u64>>)
    requires
        old(target).wf(),
        rows@.len() == old(target).rows,
        forall|i: int| 0 <= i < rows@.len() ==> (#[trigger] rows@[i])@.len() == old(target).cols,
    ensures
        final(target).wf(),
        final(target).rows == old(target).rows,
        final(target).cols == old(target).cols,
        final(target)@ == Seq::new(old(target).rows as nat, |i: int| rows@[i]@),
{
    let n: usize = target.cols;
    let m: usize = target.rows;
    let cap: usize = target.data.len();
    let mut data: Vec<u64> = Vec::new();
    let mut i: usize = 0;
    while i < m
        invariant
            *target == *old(target),
            m == target.rows,
            n == target.cols,
            cap == target.data@.len(),
            target.wf(),
            rows@.len() == m,
            forall|r: int| 0 <= r < m ==> (#[trigger] rows@[r])@.len() == n,
            i <= m,
            data@.len() == i * n,
            forall|r: int, c: int|
                0 <= r < i && 0 <= c < n ==> #[trigger] data@[r * n + c] == rows@[r]@[c],
        decreases m - i,
    {
        let row = &rows[i];
        let mut j: usize = 0;
        while j < n
            invariant
                *target == *old(target),
                m == target.rows,
                n == target.cols,
                cap == target.data@.len(),
                target.wf(),
                rows@.len() == m,
                forall|r: int| 0 <= r < m ==> (#[trigger] rows@[r])@.len() == n,
                i < m,
                j <= n,
                row@ == (#[trigger] rows@[i as int])@,
                data@.len() == i * n + j,
                forall|r: int, c: int|
                    0 <= r < i && 0 <= c < n ==> #[trigger] data@[r * n + c] == rows@[r]@[c],
                forall|c: int| 0 <= c < j ==> #[trigger] data@[i * n + c] == rows@[i as int]@[c],
            decreases n - j,
        {
            proof {
                assert(i * n + j < (i + 1) * n && (i + 1) * n <= m * n) by (nonlinear_arith)
                    requires
                        0 <= i < m as int,
                        0 <= j < n as int,
                ;
                assert(m * n == cap);
            }
            data.push(row[j]);
            j = j + 1;
            proof {
                assert forall|r: int, c: int|
                    0 <= r < i && 0 <= c < n implies #[trigger] data@[r * n + c] == rows@[r]@[c] by {
                    assert(r * n + c < i * n) by (nonlinear_arith)
                        requires
                            0 <= r < i as int,
                            0 <= c < n as int,
                    ;
                }
            }
        }
        proof {
            assert((i + 1) * n == i * n + n) by (nonlinear_arith);
        }
        i = i + 1;
    }
    target.data = data;
    proof {
        assert(target.wf()) by {
            assert(target.data@.len() == m * n);
        }
        let want = Seq::new(m as nat, |r: int| rows@[r]@);
        assert forall|r: int| 0 <= r < m implies target@[r] =~= want[r] by {
            assert forall|c: int| 0 <= c < n implies target@[r][c] == rows@[r]@[c] by {
                target.lemma_cell_index(r, c);
            }
        }
        assert(target@ =~~= want);
    }
}

/// Single-threaded multiplication: writes `a x b` into `target` when the
/// shapes fit, and otherwise reports the mismatch leaving `target` untouched.
/// Rows are filled in ascending order, each cell by the same left-to-right
/// accumulation that `product_view` states.
pub fn multiply(a: &Matrix, b: &Matrix, target: &mut Matrix) -> (r: Result<(), KernelError>)
    requires
        a.wf(),
        b.wf(),
        old(target).wf(),
    ensures
        final(target).wf(),
        final(target).rows == old(target).rows,
        final(target).cols == old(target).cols,
        r is Ok <==> shapes_ok(a, b, old(target)),
        r is Err ==> r == Err::<(), KernelError>(KernelError::Shape) && *final(target) == *old(
            target,
        ),
        r is Ok ==> final(target)@ == product_view(a@, b@, a.rows as nat, b.cols as nat),
{
    if !(a.cols == b.rows && target.rows == a.rows && target.cols == b.cols) {
        return Err(KernelError::Shape);
    }
    let mut rows: Vec<Vec<u64>> = Vec::new();
    let mut i: usize = 0;
    while i < a.rows
        invariant
            a.wf(),
            b.wf(),
            a.cols == b.rows,
            i <= a.rows,
            rows@.len() == i,
            forall|p: int|
                0 <= p < i ==> (#[trigger] rows@[p])@ == row_view(a@, b@, b.cols as nat, p),
        decreases a.rows - i,
    {
        rows.push(compute_row(a, b, i));
        i = i + 1;
    }
    write_rows(target, rows);
    proof {
        assert(target@ =~~= product_view(a@, b@, a.rows as nat, b.cols as nat));
    }
    Ok(())
}

/// Declares rayon's pool type, opaque here, so that a pool can be built,
/// held, and handed to the row wrappers.
#[verifier::external_type_specification]
#[verifier::external_body]
pub struct ExThreadPool(rayon::ThreadPool);

/// Relies on rayon's `ThreadPoolBuilder`: `num_threads(w).build()` yields a
/// pool of exactly `w` worker threads, or an error when the operating system
/// refuses to spawn them.
#[verifier::external_body]
fn build_pool(num_threads: usize) -> (pool: Option<rayon::ThreadPool>)
    requires
        num_threads >= 1,
{
    rayon::ThreadPoolBuilder::new().num_threads(num_threads).build().ok()
}

/// Relies on rayon: `ThreadPool::install` runs the closure inside the pool
/// and returns its result, and `(0..m).into_par_iter().map(f).collect()`
/// applies `f` to every index of the range, collecting the results in index
/// order. The closure only calls the verified `compute_row`, whose contract
/// gives each element below.
#[verifier::external_body]
fn rows_on_pool(pool: &rayon::ThreadPool, a: &Matrix, b: &Matrix) -> (rows: Vec<Vec<u64>>)
    requires
        a.wf(),
        b.wf(),
        a.cols == b.rows,
    ensures
        rows@.len() == a.rows,
        forall|i: int|
            0 <= i < rows@.len() ==> (#[trigger] rows@[i])@ == row_view(a@, b@, b.cols as nat, i),
{
    pool.install(|| (0..a.rows).into_par_iter().map(|i| compute_row(a, b, i)).collect())
}

/// Relies on rayon: as `rows_on_pool`, but on the process-wide default pool,
/// for when no dedicated pool could be built.
#[verifier::external_body]
fn rows_on_global(a: &Matrix, b: &Matrix) -> (rows: Vec<Vec<u64>>)
    requires
        a.wf(),
        b.wf(),
        a.cols == b.rows,
    ensures
        rows@.len() == a.rows,
        forall|i: int|
            0 <= i < rows@.len() ==> (#[trigger] rows@[i])@ == row_view(a@, b@, b.cols as nat, i),
{
    (0..a.rows).into_par_iter().map(|i| compute_row(a, b, i)).collect()
}

/// Multi-threaded multiplication: the same cells, bit for bit, as
/// `multiply`, computed with one task per output row on a pool of
/// `num_threads` workers (any count from 1 up, oversubscription included).
/// A zero worker count configures no pool and is rejected; a shape mismatch
/// is rejected as in `multiply`; either rejection leaves `target` untouched.
/// Should the operating system refuse the dedicated pool, the rows are
/// computed on the process-wide default pool instead: the cells written do
/// not depend on which pool ran, nor on how many workers it had.
pub fn multiply_parallel(
    a: &Matrix,
    b: &Matrix,
    num_threads: usize,
    target: &mut Matrix,
) -> (r: Result<(), KernelError>)
    requires
        a.wf(),
        b.wf(),
        old(target).wf(),
    ensures
        final(target).wf(),
        final(target).rows == old(target).rows,
        final(target).cols == old(target).cols,
        r is Ok <==> num_threads >= 1 && shapes_ok(a, b, old(target)),
        num_threads == 0 ==> r == Err::<(), KernelError>(KernelError::Config),
        num_threads >= 1 && !shapes_ok(a, b, old(target)) ==> r == Err::<(), KernelError>(
            KernelError::Shape,
        ),
        r is Err ==> *final(target) == *old(target),
        r is Ok ==> final(target)@ == product_view(a@, b@, a.rows as nat, b.cols as nat),
{
    if num_threads == 0 {
        return Err(KernelError::Config);
    }
    if !(a.cols == b.rows && target.rows == a.rows && target.cols == b.cols) {
        return Err(KernelError::Shape);
    }
    let rows = match build_pool(num_threads) {
        Some(pool) => rows_on_pool(&pool, a, b),
        None => rows_on_global(a, b),
    };
    write_rows(target, rows);
    proof {
        assert(target@ =~~= product_view(a@, b@, a.rows as nat, b.cols as nat));
    }
    Ok(())
}

/// Numerical equivalence of the two kernels: their contracts pin every
/// output cell to the same accumulation over the same bit patterns, so any
/// two results of multiplying `a` by `b` into an `m x n` target — sequential
/// or parallel, whatever the worker count — are bit-identical.
pub proof fn lemma_parallel_matches_sequential(
    a: Seq<Seq<u64>>,
    b: Seq<Seq<u64>>,
    m: nat,
    n: nat,
    c_seq: Seq<Seq<u64>>,
    c_par: Seq<Seq<u64>>,
)
    requires
        c_seq == product_view(a, b, m, n),
        c_par == product_view(a, b, m, n),
    ensures
        c_seq == c_par,
{
}

} // verus!
