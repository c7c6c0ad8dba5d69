//! Impl specialization: which of two overlapping impls is the more special one,
//! how the generic arguments of one impl read in terms of another, and what is
//! reported where overlapping impls do not form a chain.
//!
//! Only the simple "chain" rule is supported: if any two impls overlap, one must
//! be a strict subset of the other.
//!
//! Type inference, trait selection and the emission of diagnostics are done by
//! the compiler around this crate. The functions here decide what is asked of it
//! and what follows from its answers.
pub mod def_id;
pub mod fulfill;
pub mod graph;
pub mod header;
pub mod order;
pub mod report;
pub mod translate;
