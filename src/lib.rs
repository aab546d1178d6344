//! Measures how fast a set can be emptied one element at a time: extraction
//! strategies over `BTreeSet` and `HashSet`, a checked trial protocol, and
//! an exact running accumulator for the timing samples.

pub mod drain;
pub mod stats;
pub mod trial;
