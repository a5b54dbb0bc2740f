//! The value column: one 64-bit sample-value encoding per row.
//!
//! The store never interprets the payload; writers store the IEEE-754 bit
//! pattern of their measurement (`f64::to_bits`) and readers decode the
//! gathered values again before aggregating them.

use vstd::prelude::*;

use roaring::RoaringBitmap;

use crate::bitmap::{bitmap_seq, bm_to_vec};
use crate::rowsel::gathered;

verus! {

pub struct ValCol {
    pub rows: Vec<u64>,
}

impl ValCol {
    pub fn new() -> (r: Self)
        ensures
            r.rows@ == Seq::<u64>::empty(),
    {
        Self { rows: Vec::new() }
    }

    pub fn append(&mut self, v: Vec<u64>)
        ensures
            final(self).rows@ == old(self).rows@ + v@,
    {
        let mut v = v;
        self.rows.append(&mut v);
    }

    pub fn with_vals(vals: Vec<u64>) -> (r: Self)
        ensures
            r.rows == vals,
    {
        Self { rows: vals }
    }

    /// The value encodings of the rows the bitmap selects, in ascending row
    /// order.
    pub fn get(&self, bm: &RoaringBitmap) -> (r: Vec<u64>)
        requires
            forall|v: u32| bitmap_seq(*bm).contains(v) ==> (v as int) < self.rows@.len(),
        ensures
            r@ == gathered(self.rows@, bitmap_seq(*bm)),
    {
        let idxs = bm_to_vec(bm);
        let mut out: Vec<u64> = Vec::new();
        let mut j: usize = 0;
        while j < idxs.len()
            invariant
                j <= idxs@.len(),
                idxs@ == bitmap_seq(*bm),
                forall|v: u32| bitmap_seq(*bm).contains(v) ==> (v as int) < self.rows@.len(),
                out@.len() == j,
                forall|k: int| 0 <= k < j ==> out@[k] == self.rows@[idxs@[k] as int],
            decreases idxs@.len() - j,
        {
            let idx = idxs[j];
            assert(idxs@.contains(idxs@[j as int]));
            out.push(self.rows[idx as usize]);
            j = j + 1;
        }
        proof {
            assert(out@ =~= gathered(self.rows@, bitmap_seq(*bm)));
        }
        out
    }
}

} // verus!
