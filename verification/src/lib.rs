//! Verified building blocks for a guided tour of core language ideas:
//! arithmetic, branching, loops, sequences, borrowing, records, tagged
//! unions, traversal pipelines, and optional/fallible computation.
//!
//! Each module holds the computations behind one lesson topic, with
//! contracts stating exactly what every function returns or changes.

pub mod arrays;
pub mod basics;
pub mod borrowing;
pub mod collections;
pub mod enums;
pub mod iterators;
pub mod option_result;
pub mod ownership;
pub mod structs;
pub mod vectors;
