//! Dense matrix multiplication with a sequential kernel and a row-parallel
//! kernel, both computing every output cell by the same left-to-right
//! IEEE-754 binary64 accumulation, so that their results are bit-identical.
//!
//! Matrix cells are IEEE-754 binary64 values, each held as its 64-bit
//! pattern, so that the contracts can speak of the exact bits a kernel
//! writes.

pub mod kernel;
pub mod matrix;
pub mod scalar;

pub use kernel::multiply;
pub use kernel::multiply_parallel;
pub use kernel::KernelError;
pub use matrix::Matrix;
