//! An in-memory columnar store and query planner for time-series telemetry.
//!
//! Writers append batches of observations ([`Point`]) into a
//! [`col_store::ColStore`]; readers plan windowed, filtered, bucketed queries
//! over the four columns (timestamps, metric names, values, tags) and execute
//! them as independent per-(metric, time-chunk) plan steps.

use vstd::prelude::*;

pub mod bitmap;
pub mod col_store;
pub mod col_tys;
pub mod compose;
pub mod errs;
pub mod interner;
pub mod planner;
pub mod qry;
pub mod rowsel;

use crate::col_tys::tag_col::{tags_view, TagEntry, TagSet, TagsView};
use crate::col_tys::Str;
use crate::interner::{interned_clone, interned_str, interned_strs};

verus! {

/// Tags of one ingested sample, one key at a time: either a single key/value
/// pair, or a key with a list of values.
pub enum TagTy {
    Str(Str, Str),
    List(Str, Vec<Str>),
}

/// The key and values one [`TagTy`] stands for.
pub open spec fn tag_ty_view(t: TagTy) -> (Seq<char>, Seq<Seq<char>>) {
    match t {
        TagTy::Str(k, v) => (interned_str(k), seq![interned_str(v)]),
        TagTy::List(k, vs) => (interned_str(k), interned_strs(vs@)),
    }
}

/// The keys and values a list of [`TagTy`] stands for.
pub open spec fn tag_tys_view(ts: Seq<TagTy>) -> TagsView {
    ts.map_values(|t: TagTy| tag_ty_view(t))
}

/// Folds a list of per-key tags into one tag set, in order.
pub fn tag_set_of(tags: &Vec<TagTy>) -> (r: TagSet)
    ensures
        tags_view(r) == tag_tys_view(tags@),
{
    let mut r = TagSet::new();
    let mut i: usize = 0;
    while i < tags.len()
        invariant
            i <= tags@.len(),
            tags_view(r) == tag_tys_view(tags@.subrange(0, i as int)),
        decreases tags@.len() - i,
    {
        let ghost prev = r;
        match &tags[i] {
            TagTy::Str(k, v) => {
                let mut values: Vec<Str> = Vec::new();
                values.push(interned_clone(v));
                proof {
                    assert(interned_strs(values@) =~= seq![interned_str(*v)]);
                }
                r.entries.push(TagEntry { key: interned_clone(k), values });
            },
            TagTy::List(k, vs) => {
                let mut values: Vec<Str> = Vec::new();
                let mut j: usize = 0;
                while j < vs.len()
                    invariant
                        j <= vs@.len(),
                        values@.len() == j,
                        forall|a: int|
                            0 <= a < j ==> interned_str(#[trigger] values@[a]) == interned_str(
                                vs@[a],
                            ),
                    decreases vs@.len() - j,
                {
                    values.push(interned_clone(&vs[j]));
                    j = j + 1;
                }
                proof {
                    assert(interned_strs(values@) =~= interned_strs(vs@));
                }
                r.entries.push(TagEntry { key: interned_clone(k), values });
            },
        }
        proof {
            assert(tags_view(r) =~= tags_view(prev).push(tag_ty_view(tags@[i as int])));
            assert(tag_tys_view(tags@.subrange(0, i + 1)) =~= tag_tys_view(
                tags@.subrange(0, i as int),
            ).push(tag_ty_view(tags@[i as int])));
        }
        i = i + 1;
    }
    proof {
        assert(tags@.subrange(0, tags@.len() as int) =~= tags@);
    }
    r
}

/// One sample of a series: a unix-epoch millisecond timestamp, the sample's
/// 64-bit value encoding, and the sample's tags.
///
/// The store never interprets the value payload; writers put the IEEE-754 bit
/// pattern of their floating-point measurement here, and readers decode the
/// gathered encodings again before aggregating.
pub struct TimestampedVals {
    pub timestamp: u64,
    pub value: u64,
    pub tags: TagSet,
}

/// A point identifies a batch of samples in a particular series, named by a
/// source and a metric. Clients batch many samples of the same series into one
/// point, and many such points into one ingest call.
pub struct Point {
    pub source: String,
    pub metric: String,
    pub vals: Vec<TimestampedVals>,
}

} // verus!
