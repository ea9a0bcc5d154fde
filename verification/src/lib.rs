//! Instruction selection and register allocation for just-in-time compiled
//! matrix-by-vector multiplication kernels over row-major matrices of 64-bit
//! floating-point elements.
//!
//! The crate turns a matrix shape into an ordered list of abstract vector
//! instructions. Lowering that list to machine code and running it is the
//! business of the caller.
//!
//! - [`instructions`]: the registers, the addressing mode and the
//!   instructions.
//! - [`register_alloc`]: the allocator of vector registers.
//! - [`row_major`]: the compiler, for one block of rows and for a whole
//!   matrix.
//! - [`block_shape`]: what the instructions of a block look like.
//! - [`machine`]: what the instructions do, on a model of the machine.
//! - [`product`]: what a kernel computes on that machine.

pub mod instructions;
pub mod register_alloc;
pub mod row_major;
pub mod block_shape;
pub mod machine;
pub mod product;
