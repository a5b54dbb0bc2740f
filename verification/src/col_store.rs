//! The table: the four columns bound together under one shared row index.

use vstd::prelude::*;

use crate::col_tys::str_col::StrCol;
use crate::col_tys::tag_col::{tags_view, TagCol, TagsView};
use crate::col_tys::ts_col::TsCol;
use crate::col_tys::val_col::ValCol;
use crate::errs::ColStoreError;
use crate::interner::{intern, interned_clone, interned_strs};
use crate::{Point, TimestampedVals};

verus! {

/// One logical row: the metric name, the timestamp, the value encoding and
/// the tags of one sample.
pub type RowView = (Seq<char>, u64, u64, TagsView);

/// The rows one point contributes, in sample order.
pub open spec fn point_rows(p: Point) -> Seq<RowView> {
    p.vals@.map_values(
        |s: TimestampedVals| (p.metric@, s.timestamp, s.value, tags_view(s.tags)),
    )
}

/// The rows a batch contributes: point-major, then sample-major.
pub open spec fn batch_rows(ps: Seq<Point>) -> Seq<RowView>
    decreases ps.len(),
{
    if ps.len() == 0 {
        Seq::<RowView>::empty()
    } else {
        batch_rows(ps.drop_last()) + point_rows(ps.last())
    }
}

/// The in-memory columnar store: four parallel columns under one shared row
/// index, growing only by batch ingest.
pub struct ColStore {
    pub timestamps: TsCol,
    pub metrics: StrCol,
    pub values: ValCol,
    pub tags: TagCol,
}

impl ColStore {
    /// Row alignment: all four columns have the same length.
    pub open spec fn wf(self) -> bool {
        self.timestamps.rows@.len() == self.metrics.rows@.len()
            && self.timestamps.rows@.len() == self.values.rows@.len()
            && self.timestamps.rows@.len() == self.tags.rows@.len()
    }

    /// The store's rows, metric/timestamp/value/tags per row.
    pub open spec fn row_view(self) -> Seq<RowView>
        recommends
            self.wf(),
    {
        Seq::new(
            self.timestamps.rows@.len(),
            |i: int|
                (
                    interned_strs(self.metrics.rows@)[i],
                    self.timestamps.rows@[i],
                    self.values.rows@[i],
                    tags_view(self.tags.rows@[i]),
                ),
        )
    }

    pub fn new() -> (r: Self)
        ensures
            r.wf(),
            r.row_view() == Seq::<RowView>::empty(),
    {
        let r = Self {
            timestamps: TsCol::new(),
            metrics: StrCol::new(),
            values: ValCol::new(),
            tags: TagCol::new(),
        };
        proof {
            assert(r.row_view() =~= Seq::<RowView>::empty());
        }
        r
    }

    /// Ingests a batch: flattens each point's samples and appends one row per
    /// sample to every column, keeping the four columns aligned. Rows appear
    /// point-major, then sample-major; nothing already stored moves. Fails
    /// only on allocation, which is fatal, so the call always returns `Ok`.
    pub fn put_stream(&mut self, batch: &Vec<Point>) -> (r: Result<(), ColStoreError>)
        requires
            old(self).wf(),
        ensures
            final(self).wf(),
            final(self).row_view() == old(self).row_view() + batch_rows(batch@),
            r == Ok::<(), ColStoreError>(()),
    {
        let mut i: usize = 0;
        proof {
            assert(batch_rows(batch@.subrange(0, 0)) =~= Seq::<RowView>::empty());
            assert(self.row_view() =~= old(self).row_view() + batch_rows(batch@.subrange(0, 0)));
        }
        while i < batch.len()
            invariant
                i <= batch@.len(),
                self.wf(),
                self.row_view() == old(self).row_view() + batch_rows(
                    batch@.subrange(0, i as int),
                ),
            decreases batch@.len() - i,
        {
            let p = &batch[i];
            let m = intern(p.metric.as_str());
            let ghost before = *self;
            let mut j: usize = 0;
            proof {
                assert(point_rows(batch@[i as int]).subrange(0, 0) =~= Seq::<RowView>::empty());
                assert(self.row_view() =~= before.row_view() + point_rows(
                    batch@[i as int],
                ).subrange(0, 0));
            }
            while j < p.vals.len()
                invariant
                    j <= p.vals@.len(),
                    p == &batch@[i as int],
                    crate::interner::interned_str(m) == batch@[i as int].metric@,
                    self.wf(),
                    self.row_view() == before.row_view() + point_rows(
                        batch@[i as int],
                    ).subrange(0, j as int),
                decreases p.vals@.len() - j,
            {
                let ghost prev = *self;
                let s = &p.vals[j];
                self.timestamps.put(s.timestamp);
                self.metrics.rows.push(interned_clone(&m));
                self.values.rows.push(s.value);
                self.tags.append(s.tags.clone());
                proof {
                    let row = point_rows(batch@[i as int])[j as int];
                    assert(self.row_view() =~= prev.row_view().push(row));
                    assert(point_rows(batch@[i as int]).subrange(0, j + 1) =~= point_rows(
                        batch@[i as int],
                    ).subrange(0, j as int).push(row));
                    assert(self.row_view() =~= before.row_view() + point_rows(
                        batch@[i as int],
                    ).subrange(0, j + 1));
                }
                j = j + 1;
            }
            proof {
                assert(point_rows(batch@[i as int]).subrange(
                    0,
                    batch@[i as int].vals@.len() as int,
                ) =~= point_rows(batch@[i as int]));
                assert(batch@.subrange(0, i + 1).drop_last() =~= batch@.subrange(0, i as int));
                assert(batch@.subrange(0, i + 1).last() == batch@[i as int]);
                assert(self.row_view() =~= old(self).row_view() + batch_rows(
                    batch@.subrange(0, i + 1),
                ));
            }
            i = i + 1;
        }
        proof {
            assert(batch@.subrange(0, batch@.len() as int) =~= batch@);
        }
        Ok(())
    }
}

} // verus!
