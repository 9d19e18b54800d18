//! Laws of the language, proved from the grammar and from the meaning of
//! programs.

pub mod budget;
pub mod failures;
pub mod grouping;
pub mod ordering;
pub mod programs;
pub mod ranges;
pub mod scoping;
