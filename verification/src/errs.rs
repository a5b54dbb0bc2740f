//! The store's error kinds.

use vstd::prelude::*;

verus! {

/// Everything that the store or the planner can refuse.
///
/// Filters, gathers and aggregates are total over their typed inputs; only
/// ingest and planning can fail, and an aggregate over no rows is a gap, not
/// an error.
#[derive(Debug, PartialEq, Eq)]
pub enum ColStoreError {
    /// A field name that the schema does not know.
    InvalidField(&'static str),
    /// A query window with `start >= end`.
    EmptyWindow,
    /// A query with chunk size zero.
    ZeroChunkSize,
}

} // verus!
