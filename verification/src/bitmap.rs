//! Sets of document identifiers, held in `roaring::RoaringBitmap`.
//!
//! Nothing here is proved: every item states what the `roaring` crate does, over
//! the set of identifiers that a bitmap holds.

use roaring::RoaringBitmap;
use vstd::prelude::*;

verus! {

#[verifier::external_type_specification]
#[verifier::external_body]
pub struct ExRoaringBitmap(roaring::RoaringBitmap);

/// The document identifiers that a bitmap holds.
pub uninterp spec fn docids(bitmap: RoaringBitmap) -> Set<u32>;

/// `RoaringBitmap::new`: a bitmap that holds nothing.
#[verifier::external_body]
pub(crate) fn bitmap_new() -> (r: RoaringBitmap)
    ensures
        docids(r) == Set::<u32>::empty(),
{
    RoaringBitmap::new()
}

/// `RoaringBitmap::insert`: adds `value` to the set and tells whether it was
/// absent before.
#[verifier::external_body]
pub(crate) fn bitmap_insert(bitmap: &mut RoaringBitmap, value: u32) -> (absent: bool)
    ensures
        docids(*final(bitmap)) == docids(*old(bitmap)).insert(value),
        absent == !docids(*old(bitmap)).contains(value),
{
    bitmap.insert(value)
}

/// `|=` with a borrowed right-hand side: `bitmap` becomes the union of the two
/// sets.
#[verifier::external_body]
pub(crate) fn bitmap_union_with(bitmap: &mut RoaringBitmap, other: &RoaringBitmap)
    ensures
        docids(*final(bitmap)) == docids(*old(bitmap)).union(docids(*other)),
{
    *bitmap |= other;
}

/// `|` on two borrowed bitmaps: the union of the two sets.
#[verifier::external_body]
pub(crate) fn bitmap_union(left: &RoaringBitmap, right: &RoaringBitmap) -> (r: RoaringBitmap)
    ensures
        docids(r) == docids(*left).union(docids(*right)),
{
    left | right
}

/// `&` on two borrowed bitmaps: the intersection of the two sets.
#[verifier::external_body]
pub(crate) fn bitmap_intersection(left: &RoaringBitmap, right: &RoaringBitmap) -> (r:
    RoaringBitmap)
    ensures
        docids(r) == docids(*left).intersect(docids(*right)),
{
    left & right
}

/// `-` on two borrowed bitmaps: what `left` holds and `right` does not.
#[verifier::external_body]
pub(crate) fn bitmap_difference(left: &RoaringBitmap, right: &RoaringBitmap) -> (r: RoaringBitmap)
    ensures
        docids(r) == docids(*left).difference(docids(*right)),
{
    left - right
}

} // verus!
