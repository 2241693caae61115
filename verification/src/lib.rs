//! Batch conversion of heterogeneous business files into normalized tables:
//! a heuristic that pulls a "total" amount out of unstructured invoice text,
//! and a merge that concatenates same-schema delimited files under the header
//! of the first file.

pub mod amount;
pub mod csvio;
pub mod pipeline;
pub mod table;
