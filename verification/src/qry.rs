//! The typed query model: a time window, a chunk size, and per-metric filters
//! and aggregates.

use vstd::prelude::*;

use crate::col_tys::tag_col::TagSet;

verus! {

/// The aggregate kinds a query can request per metric.
#[derive(Debug, Clone, Copy, PartialEq, Eq, Structural)]
pub enum Agg {
    Min,
    Max,
    Avg,
    Sum,
    Median,
}

/// One metric of a query: its name, its tag predicate (empty by default), and
/// the aggregates to compute per time chunk.
pub struct QMetric {
    pub name: String,
    pub filters: TagSet,
    pub agg: Vec<Agg>,
}

/// A query: the metrics emitted during `[start_sec, end_sec)` are considered,
/// the window is partitioned into chunks of `chunk_sz_sec` before aggregating.
pub struct Query {
    pub start_sec: u64,
    pub end_sec: u64,
    pub chunk_sz_sec: u64,
    pub metrics: Vec<QMetric>,
}

} // verus!
