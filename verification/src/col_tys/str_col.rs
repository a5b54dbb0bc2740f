//! The string column: one interned string per row, used for metric names.

use vstd::prelude::*;

use roaring::RoaringBitmap;

use crate::bitmap::{bitmap_seq, bm_insert, bm_new, bm_to_vec};
use crate::col_tys::Str;
use crate::interner::{intern, interned_clone, interned_eq, interned_str, interned_strs};
use crate::rowsel::{gathered, lemma_filter_elems, lemma_filter_prefix_bound, lemma_filter_step};

verus! {

/// The strings of a sequence of `&str` values.
pub open spec fn str_views(ss: Seq<&str>) -> Seq<Seq<char>> {
    ss.map_values(|s: &str| s@)
}

/// Whether the string of a row equals `key`.
pub open spec fn str_is(rows: Seq<Seq<char>>, key: Seq<char>) -> spec_fn(u32) -> bool {
    |i: u32| rows[i as int] == key
}

pub struct StrCol {
    pub rows: Vec<Str>,
}

impl StrCol {
    pub fn new() -> (r: Self)
        ensures
            r.rows@ == Seq::<Str>::empty(),
    {
        Self { rows: Vec::new() }
    }

    pub fn with_strs(rows: Vec<&str>) -> (r: Self)
        ensures
            interned_strs(r.rows@) == str_views(rows@),
    {
        let mut col = Self::new();
        col.append(&rows);
        proof {
            assert(interned_strs(col.rows@) =~= str_views(rows@));
        }
        col
    }

    /// Interns each value and appends it as a new row.
    pub fn append(&mut self, vals: &Vec<&str>)
        ensures
            interned_strs(final(self).rows@) == interned_strs(old(self).rows@) + str_views(
                vals@,
            ),
    {
        let mut j: usize = 0;
        while j < vals.len()
            invariant
                j <= vals@.len(),
                self.rows@.len() == old(self).rows@.len() + j,
                forall|k: int|
                    0 <= k < old(self).rows@.len() ==> interned_str(#[trigger] self.rows@[k])
                        == interned_str(old(self).rows@[k]),
                forall|k: int|
                    old(self).rows@.len() <= k < self.rows@.len() ==> interned_str(
                        #[trigger] self.rows@[k],
                    ) == vals@[k - old(self).rows@.len()]@,
            decreases vals@.len() - j,
        {
            let h = intern(vals[j]);
            self.rows.push(h);
            j = j + 1;
        }
        proof {
            assert forall|k: int| 0 <= k < self.rows@.len() implies interned_strs(self.rows@)[k]
                == (interned_strs(old(self).rows@) + str_views(vals@))[k] by {}
            assert(interned_strs(self.rows@) =~= interned_strs(old(self).rows@) + str_views(
                vals@,
            ));
        }
    }

    /// Keeps the candidate rows whose interned string equals the interned
    /// `key`. Equality is identity on interned handles, so only the rows in
    /// `indices_to_consider` are inspected and no string bytes are compared.
    pub fn filter_with(&self, indices_to_consider: RoaringBitmap, key: &str) -> (r: RoaringBitmap)
        requires
            forall|v: u32|
                bitmap_seq(indices_to_consider).contains(v) ==> (v as int) < self.rows@.len(),
        ensures
            bitmap_seq(r) == bitmap_seq(indices_to_consider).filter(
                str_is(interned_strs(self.rows@), key@),
            ),
            forall|v: u32|
                bitmap_seq(r).contains(v) <==> (bitmap_seq(indices_to_consider).contains(v)
                    && interned_str(self.rows@[v as int]) == key@),
    {
        let k = intern(key);
        self.filter_with_handle(indices_to_consider, &k)
    }

    /// Like [`Self::filter_with`], for a key that is already interned.
    pub fn filter_with_handle(&self, indices_to_consider: RoaringBitmap, key: &Str) -> (r:
        RoaringBitmap)
        requires
            forall|v: u32|
                bitmap_seq(indices_to_consider).contains(v) ==> (v as int) < self.rows@.len(),
        ensures
            bitmap_seq(r) == bitmap_seq(indices_to_consider).filter(
                str_is(interned_strs(self.rows@), interned_str(*key)),
            ),
            forall|v: u32|
                bitmap_seq(r).contains(v) <==> (bitmap_seq(indices_to_consider).contains(v)
                    && interned_str(self.rows@[v as int]) == interned_str(*key)),
    {
        let ghost p = str_is(interned_strs(self.rows@), interned_str(*key));
        let idxs = bm_to_vec(&indices_to_consider);
        let mut r = bm_new();
        let mut j: usize = 0;
        assert(idxs@.subrange(0, 0).filter(p) =~= Seq::<u32>::empty()) by {
            reveal(Seq::filter);
        }
        while j < idxs.len()
            invariant
                j <= idxs@.len(),
                idxs@ == bitmap_seq(indices_to_consider),
                forall|a: int, b: int| 0 <= a < b < idxs@.len() ==> idxs@[a] < idxs@[b],
                forall|v: u32|
                    bitmap_seq(indices_to_consider).contains(v) ==> (v as int)
                        < self.rows@.len(),
                p == str_is(interned_strs(self.rows@), interned_str(*key)),
                bitmap_seq(r) == idxs@.subrange(0, j as int).filter(p),
            decreases idxs@.len() - j,
        {
            proof {
                lemma_filter_prefix_bound(idxs@, p, j as int);
                lemma_filter_step(idxs@, p, j as int);
                assert(idxs@.contains(idxs@[j as int]));
            }
            let idx = idxs[j];
            let hit = interned_eq(&self.rows[idx as usize], key);
            proof {
                assert(interned_strs(self.rows@)[idx as int] == interned_str(
                    self.rows@[idx as int],
                ));
                assert(hit == p(idx));
            }
            if hit {
                bm_insert(&mut r, idx);
            }
            j = j + 1;
        }
        proof {
            assert(idxs@.subrange(0, idxs@.len() as int) =~= idxs@);
            assert forall|v: u32|
                bitmap_seq(r).contains(v) <==> (bitmap_seq(indices_to_consider).contains(v)
                    && interned_str(self.rows@[v as int]) == interned_str(*key)) by {
                lemma_filter_elems(idxs@, p, v);
            }
        }
        r
    }

    /// The interned strings of the rows the bitmap selects, in ascending row
    /// order. Cloning a handle only copies a pointer, never string bytes.
    pub fn get(&self, bm: &RoaringBitmap) -> (r: Vec<Str>)
        requires
            forall|v: u32| bitmap_seq(*bm).contains(v) ==> (v as int) < self.rows@.len(),
        ensures
            interned_strs(r@) == gathered(interned_strs(self.rows@), bitmap_seq(*bm)),
    {
        let idxs = bm_to_vec(bm);
        let mut out: Vec<Str> = Vec::new();
        let mut j: usize = 0;
        while j < idxs.len()
            invariant
                j <= idxs@.len(),
                idxs@ == bitmap_seq(*bm),
                forall|v: u32| bitmap_seq(*bm).contains(v) ==> (v as int) < self.rows@.len(),
                out@.len() == j,
                forall|k: int|
                    0 <= k < j ==> interned_str(#[trigger] out@[k]) == interned_str(
                        self.rows@[idxs@[k] as int],
                    ),
            decreases idxs@.len() - j,
        {
            let idx = idxs[j];
            assert(idxs@.contains(idxs@[j as int]));
            let h = interned_clone(&self.rows[idx as usize]);
            out.push(h);
            j = j + 1;
        }
        proof {
            assert forall|k: int| 0 <= k < out@.len() implies interned_strs(out@)[k] == gathered(
                interned_strs(self.rows@),
                bitmap_seq(*bm),
            )[k] by {
                assert(bitmap_seq(*bm).contains(idxs@[k]));
            }
            assert(interned_strs(out@) =~= gathered(interned_strs(self.rows@), bitmap_seq(*bm)));
        }
        out
    }
}

} // verus!
