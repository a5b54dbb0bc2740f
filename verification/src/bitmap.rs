//! The row-set bitmap: a compressed sorted set of `u32` row indices, used as
//! the universal row-selector between filter stages.
//!
//! The bitmap itself comes from the `roaring` crate; this module gives it a
//! mathematical view. A bitmap is modelled by [`bitmap_seq`], the strictly
//! ascending sequence of the row indices it contains.

use vstd::prelude::*;

use roaring::RoaringBitmap;

verus! {

#[verifier::external_type_specification]
#[verifier::external_body]
pub struct ExRoaringBitmap(RoaringBitmap);

/// The values a bitmap contains, as the strictly ascending sequence in which
/// the bitmap enumerates them.
pub uninterp spec fn bitmap_seq(b: RoaringBitmap) -> Seq<u32>;

/// Relies on `roaring::RoaringBitmap::new`: the new bitmap is empty.
#[verifier::external_body]
pub(crate) fn bm_new() -> (r: RoaringBitmap)
    ensures
        bitmap_seq(r) == Seq::<u32>::empty(),
{
    RoaringBitmap::new()
}

/// Relies on `roaring::RoaringBitmap::insert`: the value is added to the set.
/// Because the value is greater than everything already present, the ascending
/// value sequence gains it at the end.
#[verifier::external_body]
pub(crate) fn bm_insert(b: &mut RoaringBitmap, v: u32)
    requires
        forall|u: u32| bitmap_seq(*old(b)).contains(u) ==> u < v,
    ensures
        bitmap_seq(*final(b)) == bitmap_seq(*old(b)).push(v),
{
    b.insert(v);
}

/// Relies on `roaring::RoaringBitmap::iter`, which guarantees that values are
/// enumerated in ascending order.
#[verifier::external_body]
pub(crate) fn bm_to_vec(b: &RoaringBitmap) -> (r: Vec<u32>)
    ensures
        r@ == bitmap_seq(*b),
        forall|i: int, j: int| 0 <= i < j < r@.len() ==> r@[i] < r@[j],
{
    b.iter().collect()
}

} // verus!
