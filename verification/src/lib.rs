//! Comparison tracing for redqueen-style fuzzing, verified with Verus.
//!
//! An instrumented target records every comparison that it executes, with
//! both operands, into a trace buffer of fixed size. After each run this
//! library decodes the buffer, leaves out the comparisons that only follow a
//! loop counter, and keeps the rest in a store with two sides: the values
//! seen on the input as it is, and the values seen on a mutated copy. A
//! mutator can then look for the bytes of the input that decide a comparison.
//!
//! - [`wire`]: little-endian words in a byte region.
//! - [`header`]: the packed header of a comparison site, with its codec.
//! - [`values`]: the operands of one recorded comparison.
//! - [`layout`]: what the bytes of the trace buffer mean, as a model.
//! - [`trace_map`]: the view over the trace buffer.
//! - [`filter`]: the loop filter.
//! - [`metadata`]: the store of comparison values.
//! - [`observer`]: what happens before and after a run.
//! - [`symcc`]: the steps of fetching and building SymCC.
//! - [`error`]: failures.
//!
//! The library does no input or output and never panics. Every function has
//! a contract that says exactly what it returns, and Verus proves that the
//! code keeps it.

pub mod error;
pub mod filter;
pub mod header;
pub mod layout;
pub mod metadata;
pub mod observer;
pub mod symcc;
pub mod trace_map;
pub mod values;
pub mod wire;
