//! The facet indices that a filter is evaluated against.
//!
//! A [`FacetIndex`] holds, as plain values, what an ordered store keeps for
//! the facets of a set of documents: the numeric pyramid, the string index,
//! the documents that have any value for a field, and the geographic
//! neighbourhoods of the points that a filter asks about.

use crate::number::{Bound, Number};
use roaring::RoaringBitmap;
use vstd::prelude::*;

verus! {

/// The handle of a field.
pub type FieldId = u16;

/// One entry of the numeric pyramid: the documents of `field` whose value lies
/// between `low` and `high`, both included, as level `level` groups them.
pub struct NumberEntry {
    pub field: FieldId,
    pub level: u8,
    pub low: Number,
    pub high: Number,
    pub docids: RoaringBitmap,
}

/// One entry of the string index: the documents of `field` that store `value`.
pub struct StringEntry {
    pub field: FieldId,
    pub value: String,
    pub docids: RoaringBitmap,
}

/// The documents that have any value of one kind for `field`.
pub struct FieldDocids {
    pub field: FieldId,
    pub docids: RoaringBitmap,
}

/// A document at a distance from the centre of a [`GeoSearch`].
pub struct GeoNeighbour {
    pub distance: Number,
    pub docid: u32,
}

/// The documents around `center` (latitude, longitude), nearest first, each
/// with its great-circle distance from the centre.
pub struct GeoSearch {
    pub center: [Number; 2],
    pub neighbours: Vec<GeoNeighbour>,
}

/// The facet indices of a set of documents.
pub struct FacetIndex {
    /// The numeric pyramid, in the order of its keys: field, level, low.
    pub numbers: Vec<NumberEntry>,
    /// The string index.
    pub strings: Vec<StringEntry>,
    /// Per field, the documents that have a numeric value.
    pub number_faceted: Vec<FieldDocids>,
    /// Per field, the documents that have a string value.
    pub string_faceted: Vec<FieldDocids>,
    /// The documents that have a position.
    pub geo_faceted: RoaringBitmap,
    /// The neighbourhoods of the points that a filter asks about, or `None`
    /// where no document has a position.
    pub geo: Option<Vec<GeoSearch>>,
}

/// The place of a key of the numeric pyramid in the order of all keys: keys
/// are ordered by field, then by level, then by their lower end.
pub open spec fn pyramid_key(field: FieldId, level: u8, low: Number) -> int {
    field as int * 0x1_00_0000_0000_0000_0000 + level as int * 0x1_0000_0000_0000_0000
        + low.key as int
}

impl NumberEntry {
    /// The place of this entry in the order of the pyramid.
    pub open spec fn key(self) -> int {
        pyramid_key(self.field, self.level, self.low)
    }

    /// An entry covers a range that is not empty, and a single value at level
    /// 0.
    pub open spec fn well_formed(self) -> bool {
        &&& self.low.key <= self.high.key
        &&& self.level == 0 ==> self.low == self.high
    }

    /// Whether this entry belongs to level `level` of `field` and lies within
    /// the interval from `left` to `right`, with both of its ends.
    pub open spec fn lies_in(self, field: FieldId, level: u8, left: Bound, right: Bound) -> bool {
        &&& self.field == field
        &&& self.level == level
        &&& left.admits_above(self.low)
        &&& right.admits_below(self.high)
    }
}

/// Whether the entries stand in the strict order of their keys, each of them
/// well formed, and no two of one level of one field overlap.
#[verifier::opaque]
pub open spec fn pyramid_in_order(entries: Seq<NumberEntry>) -> bool {
    &&& forall|i: int| 0 <= i < entries.len() ==> (#[trigger] entries[i]).well_formed()
    &&& forall|i: int, j: int|
        0 <= i < j < entries.len() ==> (#[trigger] entries[i]).key() < (#[trigger] entries[j]).key()
    &&& forall|i: int, j: int|
        0 <= i < j < entries.len() && (#[trigger] entries[i]).field == (#[trigger] entries[j]).field
            && entries[i].level == entries[j].level ==> entries[i].high.key < entries[j].low.key
}

/// Whether `level` is the highest level at which the pyramid has an entry for
/// `field`.
pub open spec fn is_top_level(entries: Seq<NumberEntry>, field: FieldId, level: u8) -> bool {
    &&& exists|i: int|
        0 <= i < entries.len() && (#[trigger] entries[i]).field == field && entries[i].level
            == level
    &&& forall|i: int|
        0 <= i < entries.len() && (#[trigger] entries[i]).field == field ==> entries[i].level
            <= level
}

/// The highest level at which the pyramid has an entry for `field`, if it has
/// any.
pub open spec fn top_level(entries: Seq<NumberEntry>, field: FieldId) -> Option<u8> {
    if exists|level: u8| is_top_level(entries, field, level) {
        Some(choose|level: u8| is_top_level(entries, field, level))
    } else {
        None
    }
}

/// Compares the key of an entry with a key given by its parts.
fn key_is_below(entry: &NumberEntry, field: FieldId, level: u8, low: Number) -> (r: bool)
    ensures
        r == (entry.key() < pyramid_key(field, level, low)),
{
    entry.field < field || (entry.field == field && (entry.level < level || (entry.level == level
        && entry.low.key < low.key)))
}

/// Tests whether the entries are in the order of a pyramid.
pub fn check_pyramid(entries: &Vec<NumberEntry>) -> (r: bool)
    ensures
        r == pyramid_in_order(entries@),
{
    let n = entries.len();
    let mut i: usize = 0;
    proof {
        reveal(pyramid_in_order);
    }
    while i < n
        invariant
            0 <= i <= n,
            n == entries.len(),
            pyramid_in_order(entries@.subrange(0, i as int)),
        decreases n - i,
    {
        proof {
            reveal(pyramid_in_order);
        }
        let ghost seen = entries@.subrange(0, i as int);
        let ghost next = entries@.subrange(0, i + 1);
        let entry = &entries[i];
        if entry.low.key > entry.high.key || (entry.level == 0 && entry.low.key
            != entry.high.key) {
            assert(!entries@[i as int].well_formed());
            return false;
        }
        if i > 0 {
            let before = &entries[i - 1];
            if !key_is_below(before, entry.field, entry.level, entry.low) {
                assert(!(entries@[i - 1].key() < entries@[i as int].key()));
                return false;
            }
            if before.field == entry.field && before.level == entry.level && before.high.key
                >= entry.low.key {
                assert(entries@[i - 1].field == entries@[i as int].field);
                return false;
            }
        }
        proof {
            assert forall|a: int| 0 <= a < next.len() implies (#[trigger] next[a]).well_formed() by {
                if a < i {
                    assert(seen[a].well_formed());
                }
            }
            assert forall|a: int, b: int| 0 <= a < b < next.len() implies (#[trigger] next[a]).key()
                < (#[trigger] next[b]).key() by {
                if b < i {
                    assert(seen[a].key() < seen[b].key());
                } else if a < i - 1 {
                    assert(seen[a].key() < seen[i - 1].key());
                }
            }
            assert forall|a: int, b: int|
                0 <= a < b < next.len() && (#[trigger] next[a]).field == (#[trigger] next[b]).field
                    && next[a].level == next[b].level implies next[a].high.key
                < next[b].low.key by {
                if b < i {
                    assert(seen[a].high.key < seen[b].low.key);
                } else if a < i - 1 {
                    assert(seen[a].key() < seen[i - 1].key());
                    assert(seen[i - 1].well_formed());
                    assert(seen[a].high.key < seen[i - 1].low.key);
                }
            }
        }
        i += 1;
    }
    assert(entries@.subrange(0, n as int) == entries@);
    true
}

impl FacetIndex {
    /// Whether the index is well formed: its numeric pyramid is in order.
    pub open spec fn wf(&self) -> bool {
        pyramid_in_order(self.numbers@)
    }

    /// Makes an index of its parts, or `None` where the numeric pyramid is not
    /// in order.
    pub fn new(
        numbers: Vec<NumberEntry>,
        strings: Vec<StringEntry>,
        number_faceted: Vec<FieldDocids>,
        string_faceted: Vec<FieldDocids>,
        geo_faceted: RoaringBitmap,
        geo: Option<Vec<GeoSearch>>,
    ) -> (r: Option<FacetIndex>)
        ensures
            r is Some <==> pyramid_in_order(numbers@),
            r matches Some(index) ==> index.wf() && index == (FacetIndex {
                numbers,
                strings,
                number_faceted,
                string_faceted,
                geo_faceted,
                geo,
            }),
    {
        if check_pyramid(&numbers) {
            Some(FacetIndex { numbers, strings, number_faceted, string_faceted, geo_faceted, geo })
        } else {
            None
        }
    }

    /// The position of the first entry of the pyramid whose key is not below
    /// the key made of `field`, `level` and `low`.
    pub fn seek(&self, field: FieldId, level: u8, low: Number) -> (pos: usize)
        requires
            self.wf(),
        ensures
            pos <= self.numbers.len(),
            forall|i: int| 0 <= i < pos ==> (#[trigger] self.numbers[i]).key() < pyramid_key(field, level, low),
            forall|i: int|
                pos <= i < self.numbers.len() ==> (#[trigger] self.numbers[i]).key() >= pyramid_key(
                    field,
                    level,
                    low,
                ),
    {
        let mut from: usize = 0;
        let mut to: usize = self.numbers.len();
        proof {
            reveal(pyramid_in_order);
        }
        while from < to
            invariant
                self.wf(),
                0 <= from <= to <= self.numbers.len(),
                forall|i: int| 0 <= i < from ==> (#[trigger] self.numbers[i]).key() < pyramid_key(field, level, low),
                forall|i: int|
                    to <= i < self.numbers.len() ==> (#[trigger] self.numbers[i]).key()
                        >= pyramid_key(field, level, low),
            decreases to - from,
        {
            proof {
                reveal(pyramid_in_order);
            }
            let middle = from + (to - from) / 2;
            if key_is_below(&self.numbers[middle], field, level, low) {
                from = middle + 1;
            } else {
                to = middle;
            }
        }
        from
    }

    /// The highest level at which the pyramid has an entry for `field`, if it
    /// has any.
    pub fn top_level(&self, field: FieldId) -> (r: Option<u8>)
        requires
            self.wf(),
        ensures
            r == top_level(self.numbers@, field),
    {
        proof {
            reveal(pyramid_in_order);
        }
        let end = if field < 0xFFFF {
            self.seek(field + 1, 0, Number::lowest())
        } else {
            self.numbers.len()
        };
        if end > 0 && self.numbers[end - 1].field == field {
            let level = self.numbers[end - 1].level;
            assert(is_top_level(self.numbers@, field, level)) by {
                assert forall|i: int|
                    0 <= i < self.numbers.len() && (#[trigger] self.numbers[i]).field
                        == field implies self.numbers[i].level <= level by {
                    if i < end - 1 {
                        assert(self.numbers[i].key() < self.numbers[end - 1].key());
                    } else if i >= end {
                        assert(self.numbers[i].key() >= pyramid_key((field + 1) as u16, 0, Number { key: 0 }));
                    }
                }
            }
            assert forall|other: u8| is_top_level(self.numbers@, field, other) implies other
                == level by {}
            Some(level)
        } else {
            assert forall|i: int| 0 <= i < self.numbers.len() implies (#[trigger] self.numbers[i]).field
                != field by {
                if i < end {
                    if end > 0 {
                        if i < end - 1 {
                            assert(self.numbers[i].key() < self.numbers[end - 1].key());
                        }
                        if field < 0xFFFF {
                            assert(self.numbers[end - 1].key() < pyramid_key((field + 1) as u16, 0, Number { key: 0 }));
                        }
                    }
                } else {
                    assert(self.numbers[i].key() >= pyramid_key((field + 1) as u16, 0, Number { key: 0 }));
                }
            }
            None
        }
    }
}

} // verus!
