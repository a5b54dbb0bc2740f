//! The timestamp column: one `u64` epoch-millisecond value per row.

use vstd::prelude::*;

use core::ops::Range;
use roaring::RoaringBitmap;

use crate::bitmap::{bitmap_seq, bm_insert, bm_new, bm_to_vec};
use crate::rowsel::{gathered, lemma_filter_elems, lemma_filter_step, lemma_row_idxs_elems, row_idxs};

verus! {

/// Whether the timestamp of a row lies in the half-open window `[lo, hi)`.
pub open spec fn ts_in_window(rows: Seq<u64>, lo: u64, hi: u64) -> spec_fn(u32) -> bool {
    |i: u32| lo <= rows[i as int] && rows[i as int] < hi
}

pub struct TsCol {
    pub rows: Vec<u64>,
}

impl TsCol {
    pub fn new() -> (r: Self)
        ensures
            r.rows@ == Seq::<u64>::empty(),
    {
        Self { rows: Vec::new() }
    }

    /// One row per value of the range, ascending; a reversed range yields an
    /// empty column.
    pub fn with_range(range: Range<u64>) -> (r: Self)
        requires
            range.end - range.start <= usize::MAX,
        ensures
            range.start <= range.end ==> r.rows@.len() == range.end - range.start,
            range.start > range.end ==> r.rows@.len() == 0,
            forall|i: int| 0 <= i < r.rows@.len() ==> r.rows@[i] == range.start + i,
    {
        let mut rows: Vec<u64> = Vec::new();
        if range.start >= range.end {
            return Self { rows };
        }
        let mut t = range.start;
        while t < range.end
            invariant
                range.start <= t <= range.end,
                rows@.len() == t - range.start,
                forall|i: int| 0 <= i < rows@.len() ==> rows@[i] == range.start + i,
            decreases range.end - t,
        {
            rows.push(t);
            t = t + 1;
        }
        Self { rows }
    }

    pub fn with_values(values: Vec<u64>) -> (r: Self)
        ensures
            r.rows == values,
    {
        Self { rows: values }
    }

    pub fn put(&mut self, ts: u64)
        ensures
            final(self).rows@ == old(self).rows@.push(ts),
    {
        self.rows.push(ts);
    }

    pub fn append(&mut self, vals: &mut Vec<u64>)
        ensures
            final(self).rows@ == old(self).rows@ + old(vals)@,
            final(vals)@ == Seq::<u64>::empty(),
    {
        self.rows.append(vals);
    }

    /// Scans all the time values and returns, as a bitmap, the indices of the
    /// rows whose value lies within the provided half-open range.
    pub fn filter_with(&self, range: Range<u64>) -> (r: RoaringBitmap)
        requires
            self.rows@.len() <= u32::MAX + 1,
        ensures
            bitmap_seq(r) == row_idxs(self.rows@.len()).filter(
                ts_in_window(self.rows@, range.start, range.end),
            ),
            forall|v: u32|
                bitmap_seq(r).contains(v) <==> ((v as int) < self.rows@.len()
                    && range.start <= self.rows@[v as int] && self.rows@[v as int] < range.end),
    {
        let ghost p = ts_in_window(self.rows@, range.start, range.end);
        let n = self.rows.len();
        let mut r = bm_new();
        let mut i: usize = 0;
        assert(row_idxs(0).filter(p) =~= Seq::<u32>::empty()) by {
            reveal(Seq::filter);
        }
        while i < n
            invariant
                i <= n,
                n == self.rows@.len(),
                n <= u32::MAX + 1,
                p == ts_in_window(self.rows@, range.start, range.end),
                bitmap_seq(r) == row_idxs(i as nat).filter(p),
            decreases n - i,
        {
            proof {
                assert forall|u: u32| bitmap_seq(r).contains(u) implies u < (i as u32) by {
                    lemma_filter_elems(row_idxs(i as nat), p, u);
                    lemma_row_idxs_elems(i as nat, u);
                }
                lemma_filter_step(row_idxs(n as nat), p, i as int);
                assert(row_idxs(n as nat).subrange(0, i as int) =~= row_idxs(i as nat));
                assert(row_idxs(n as nat).subrange(0, i + 1 as int) =~= row_idxs((i + 1) as nat));
                assert(row_idxs(n as nat)[i as int] == i as u32);
            }
            let ts = self.rows[i];
            if range.start <= ts && ts < range.end {
                bm_insert(&mut r, i as u32);
            }
            i = i + 1;
        }
        proof {
            assert forall|v: u32|
                bitmap_seq(r).contains(v) <==> ((v as int) < self.rows@.len()
                    && range.start <= self.rows@[v as int] && self.rows@[v as int]
                    < range.end) by {
                lemma_filter_elems(row_idxs(n as nat), p, v);
                lemma_row_idxs_elems(n as nat, v);
            }
        }
        r
    }

    /// The timestamps of the rows the bitmap selects, in ascending row order.
    pub fn get(&self, bm: &RoaringBitmap) -> (r: Vec<u64>)
        requires
            forall|v: u32| bitmap_seq(*bm).contains(v) ==> (v as int) < self.rows@.len(),
        ensures
            r@ == gathered(self.rows@, bitmap_seq(*bm)),
    {
        let idxs = bm_to_vec(bm);
        let mut out: Vec<u64> = Vec::new();
        let mut j: usize = 0;
        while j < idxs.len()
            invariant
                j <= idxs@.len(),
                idxs@ == bitmap_seq(*bm),
                forall|v: u32| bitmap_seq(*bm).contains(v) ==> (v as int) < self.rows@.len(),
                out@.len() == j,
                forall|k: int| 0 <= k < j ==> out@[k] == self.rows@[idxs@[k] as int],
            decreases idxs@.len() - j,
        {
            let idx = idxs[j];
            assert(idxs@.contains(idxs@[j as int]));
            out.push(self.rows[idx as usize]);
            j = j + 1;
        }
        proof {
            assert(out@ =~= gathered(self.rows@, bitmap_seq(*bm)));
        }
        out
    }
}

} // verus!
