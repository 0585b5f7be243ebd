//! A typed model of a low-level matrix-multiply coprocessor driven by raw
//! instruction words.
//!
//! The crate has three layers:
//!
//! - [`encode`] computes the raw instruction words and the packed addressing
//!   operands bit-exactly, and proves that the packed fields can be recovered.
//! - [`engine`] models the coprocessor's register file (two 8-register input
//!   banks and a 64-row accumulator bank, 16 lanes each) as an exclusive
//!   capability value, with load/store addressing, the fused outer-product
//!   accumulation and the tiled 16x16 matrix multiply, each with a full
//!   functional contract.
//! - [`laws`] states and proves the protocol-level guarantees: round trips
//!   through every register, additivity of accumulation, outer-product rows,
//!   and the stride-4 mapping of the accumulator matrices.
//!
//! Lane values are modeled as 64-bit integers. The physical unit operates on
//! 32-bit floating-point lanes; everything this crate establishes about
//! addressing, striding, accumulation and tile scheduling is independent of
//! the lane arithmetic's carrier, and integer lanes make the accumulation
//! laws exact.

pub mod encode;
pub mod engine;
pub mod laws;
