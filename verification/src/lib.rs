//! Partition planning and ordered generation core for a deterministic
//! synthetic spatial-benchmark dataset generator.
//!
//! The crate plans how a `(part, total_parts)` request over a table's row
//! space is split into generation units, reassembles concurrently rendered
//! chunks in strict source order, tracks write statistics, and estimates
//! row ranges and row-group sizing for the externally sourced zone table.

pub mod decimal;
pub mod pipeline;
pub mod plan;
pub mod rows;
pub mod sink;
pub mod statistics;
pub mod table;
pub mod zone;
