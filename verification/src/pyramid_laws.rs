//! What the walk down the pyramid gives where the pyramid is consistent: the
//! documents of the values of the interval, from whatever level it starts.

use crate::bitmap::docids;
use crate::descent::{
    descent, descent_above, descent_below, first_hit, has_hit, is_exact_lookup, is_hit, last_hit,
    lemma_descent_step, level_docids,
};
use crate::index::{pyramid_in_order, FieldId, NumberEntry};
use crate::number::{ends_exclude_all, Bound, Number};
use vstd::prelude::*;

verus! {

/// Whether the entry at `c` is an entry of level `level` of `field` that
/// covers the value `v`.
pub open spec fn covers(entries: Seq<NumberEntry>, c: int, field: FieldId, level: u8, v: Number) -> bool {
    &&& 0 <= c < entries.len()
    &&& entries[c].field == field
    &&& entries[c].level == level
    &&& entries[c].low.key <= v.key <= entries[c].high.key
}

/// Whether the value of the entry at `z`, an entry of level 0, lies from the
/// lower end of the entry at `a` to the upper end of the entry at `b`, two
/// entries of its field at one level above 0.
pub open spec fn lies_between(entries: Seq<NumberEntry>, z: int, a: int, b: int) -> bool {
    &&& 0 <= z < entries.len()
    &&& 0 <= a < entries.len()
    &&& 0 <= b < entries.len()
    &&& entries[z].level == 0
    &&& entries[a].level > 0
    &&& entries[a].level == entries[b].level
    &&& entries[a].field == entries[z].field
    &&& entries[b].field == entries[z].field
    &&& entries[a].low.key <= entries[z].low.key <= entries[b].high.key
}

/// Whether the pyramid is consistent: it is in order, an entry above level 0
/// holds the documents of the values of level 0 that it covers, and a value of
/// level 0 that lies between two entries of a higher level lies in an entry of
/// that level.
pub open spec fn pyramid_is_consistent(entries: Seq<NumberEntry>) -> bool {
    &&& pyramid_in_order(entries)
    &&& forall|i: int|
        0 <= i < entries.len() && (#[trigger] entries[i]).level > 0 ==> docids(entries[i].docids)
            == level_docids(
            entries,
            entries[i].field,
            0,
            Bound::Included(entries[i].low),
            Bound::Included(entries[i].high),
        )
    &&& forall|z: int, a: int, b: int| #[trigger]
        lies_between(entries, z, a, b) ==> exists|c: int| #[trigger]
            covers(entries, c, entries[z].field, entries[a].level, entries[z].low)
}

/// The entries of a level that lie within an interval stand between the first
/// and the last of them, in place and in range.
proof fn lemma_hits_lie_between_ends(
    entries: Seq<NumberEntry>,
    field: FieldId,
    level: u8,
    left: Bound,
    right: Bound,
    j: int,
)
    requires
        pyramid_in_order(entries),
        is_hit(entries, field, level, left, right, j),
    ensures
        has_hit(entries, field, level, left, right),
        is_hit(entries, field, level, left, right, first_hit(entries, field, level, left, right)),
        is_hit(entries, field, level, left, right, last_hit(entries, field, level, left, right)),
        first_hit(entries, field, level, left, right) <= j <= last_hit(
            entries,
            field,
            level,
            left,
            right,
        ),
        entries[first_hit(entries, field, level, left, right)].low.key <= entries[j].low.key,
        entries[j].high.key <= entries[last_hit(entries, field, level, left, right)].high.key,
{
    reveal(first_hit);
    reveal(last_hit);
    reveal(pyramid_in_order);
    // Among the entries that lie within the interval there is a first and a last.
    lemma_first_exists(entries, field, level, left, right, j);
    lemma_last_exists(entries, field, level, left, right, j, entries.len() - 1);
    let f = first_hit(entries, field, level, left, right);
    let l = last_hit(entries, field, level, left, right);
    if f < j {
        assert(entries[f].key() < entries[j].key());
    }
    if j < l {
        assert(entries[j].high.key < entries[l].low.key);
        assert(entries[l].well_formed());
    }
}

/// Below an entry that lies within the interval stands a first one.
proof fn lemma_first_exists(
    entries: Seq<NumberEntry>,
    field: FieldId,
    level: u8,
    left: Bound,
    right: Bound,
    j: int,
)
    requires
        is_hit(entries, field, level, left, right, j),
    ensures
        exists|i: int|
            is_hit(entries, field, level, left, right, i) && forall|k: int|
                is_hit(entries, field, level, left, right, k) ==> i <= k,
    decreases j,
{
    if exists|k: int| k < j && is_hit(entries, field, level, left, right, k) {
        let k = choose|k: int| k < j && is_hit(entries, field, level, left, right, k);
        lemma_first_exists(entries, field, level, left, right, k);
    } else {
        assert(forall|k: int| is_hit(entries, field, level, left, right, k) ==> j <= k);
    }
}

/// Above an entry that lies within the interval stands a last one.
proof fn lemma_last_exists(
    entries: Seq<NumberEntry>,
    field: FieldId,
    level: u8,
    left: Bound,
    right: Bound,
    j: int,
    top: int,
)
    requires
        is_hit(entries, field, level, left, right, j),
        top == entries.len() - 1,
    ensures
        exists|i: int|
            is_hit(entries, field, level, left, right, i) && forall|k: int|
                is_hit(entries, field, level, left, right, k) ==> k <= i,
    decreases top - j,
{
    if exists|k: int| k > j && is_hit(entries, field, level, left, right, k) {
        let k = choose|k: int| k > j && is_hit(entries, field, level, left, right, k);
        lemma_last_exists(entries, field, level, left, right, k, top);
    } else {
        assert(forall|k: int| is_hit(entries, field, level, left, right, k) ==> k <= j);
    }
}

/// The documents of the values of `field` that lie in the interval: those of
/// the entries of level 0 within it.
pub open spec fn value_docids(entries: Seq<NumberEntry>, field: FieldId, left: Bound, right: Bound) -> Set<
    u32,
> {
    level_docids(entries, field, 0, left, right)
}

/// An interval whose ends exclude everything holds no value.
proof fn lemma_void_interval_has_no_values(
    entries: Seq<NumberEntry>,
    field: FieldId,
    left: Bound,
    right: Bound,
)
    requires
        pyramid_in_order(entries),
        ends_exclude_all(left, right),
    ensures
        value_docids(entries, field, left, right) == Set::<u32>::empty(),
{
    reveal(pyramid_in_order);
    assert forall|i: int| !is_hit(entries, field, 0, left, right, i) by {
        if is_hit(entries, field, 0, left, right, i) {
            assert(entries[i].well_formed());
        }
    }
    assert(value_docids(entries, field, left, right) =~= Set::<u32>::empty());
}

/// The documents of an entry of a consistent pyramid that lies within the
/// interval are documents of values of the interval.
proof fn lemma_hit_holds_values(
    entries: Seq<NumberEntry>,
    field: FieldId,
    level: u8,
    left: Bound,
    right: Bound,
    j: int,
    d: u32,
)
    requires
        pyramid_is_consistent(entries),
        is_hit(entries, field, level, left, right, j),
        docids(entries[j].docids).contains(d),
    ensures
        value_docids(entries, field, left, right).contains(d),
{
    reveal(pyramid_in_order);
    assert(entries[j].well_formed());
    if level == 0 {
        assert(is_hit(entries, field, 0, left, right, j));
    } else {
        let inner_left = Bound::Included(entries[j].low);
        let inner_right = Bound::Included(entries[j].high);
        assert(level_docids(entries, field, 0, inner_left, inner_right).contains(d));
        let z = choose|z: int|
            is_hit(entries, field, 0, inner_left, inner_right, z) && docids(
                entries[z].docids,
            ).contains(d);
        assert(entries[z].well_formed());
        assert(is_hit(entries, field, 0, left, right, z));
    }
}

/// In a consistent pyramid, a value of the interval that lies between the
/// first and the last entry taken at a level lies in an entry taken at that
/// level, which holds its documents.
proof fn lemma_value_between_ends_is_taken(
    entries: Seq<NumberEntry>,
    field: FieldId,
    level: u8,
    left: Bound,
    right: Bound,
    z: int,
    d: u32,
)
    requires
        pyramid_is_consistent(entries),
        level > 0,
        has_hit(entries, field, level, left, right),
        is_hit(entries, field, 0, left, right, z),
        docids(entries[z].docids).contains(d),
        entries[first_hit(entries, field, level, left, right)].low.key <= entries[z].low.key,
        entries[z].low.key <= entries[last_hit(entries, field, level, left, right)].high.key,
    ensures
        level_docids(entries, field, level, left, right).contains(d),
{
    let some = choose|i: int| is_hit(entries, field, level, left, right, i);
    lemma_hits_lie_between_ends(entries, field, level, left, right, some);
    let f = first_hit(entries, field, level, left, right);
    let l = last_hit(entries, field, level, left, right);
    reveal(pyramid_in_order);
    assert(lies_between(entries, z, f, l));
    let c = choose|c: int| #[trigger] covers(entries, c, field, level, entries[z].low);
    assert(entries[c].well_formed());
    assert(entries[f].well_formed());
    assert(entries[l].well_formed());
    assert(entries[z].well_formed());
    // The covering entry stands from the first entry taken to the last.
    if c < f {
        assert(entries[c].high.key < entries[f].low.key);
    }
    if f < c {
        assert(entries[f].key() < entries[c].key());
    }
    if l < c {
        assert(entries[l].high.key < entries[c].low.key);
    }
    if c < l {
        assert(entries[c].high.key < entries[l].low.key);
    }
    assert(is_hit(entries, field, level, left, right, c));
    // It holds the documents of the value.
    assert(is_hit(
        entries,
        field,
        0,
        Bound::Included(entries[c].low),
        Bound::Included(entries[c].high),
        z,
    ));
    assert(level_docids(
        entries,
        field,
        0,
        Bound::Included(entries[c].low),
        Bound::Included(entries[c].high),
    ).contains(d));
}

/// In a consistent pyramid the walk gathers the documents of the values of
/// the interval, whatever the level it starts from.
pub proof fn law_descent_gives_values(
    entries: Seq<NumberEntry>,
    field: FieldId,
    level: u8,
    left: Bound,
    right: Bound,
)
    requires
        pyramid_is_consistent(entries),
    ensures
        descent(entries, field, level, left, right) == value_docids(entries, field, left, right),
    decreases level,
{
    lemma_descent_step(entries, field, level, left, right);
    let values = value_docids(entries, field, left, right);
    if is_exact_lookup(level, left, right) {
        law_descent_gives_values(entries, field, 0, left, right);
    } else if ends_exclude_all(left, right) {
        lemma_void_interval_has_no_values(entries, field, left, right);
    } else if level == 0 {
    } else if !has_hit(entries, field, level, left, right) {
        law_descent_gives_values(entries, field, (level - 1) as u8, left, right);
    } else {
        let some = choose|i: int| is_hit(entries, field, level, left, right, i);
        lemma_hits_lie_between_ends(entries, field, level, left, right, some);
        let f = first_hit(entries, field, level, left, right);
        let l = last_hit(entries, field, level, left, right);
        let left_found = entries[f].low;
        let right_found = entries[l].high;
        let taken = level_docids(entries, field, level, left, right);
        let below = descent_below(entries, field, level, left, left_found);
        let above = descent_above(entries, field, level, right_found, right);
        let lower = value_docids(entries, field, left, Bound::Excluded(left_found));
        let upper = value_docids(entries, field, Bound::Excluded(right_found), right);
        if left != Bound::Included(left_found) {
            law_descent_gives_values(
                entries,
                field,
                (level - 1) as u8,
                left,
                Bound::Excluded(left_found),
            );
        }
        if right != Bound::Included(right_found) {
            law_descent_gives_values(
                entries,
                field,
                (level - 1) as u8,
                Bound::Excluded(right_found),
                right,
            );
        }
        assert(entries[f].low.key <= entries[f].high.key && entries[l].low.key
            <= entries[l].high.key) by {
            reveal(pyramid_in_order);
            assert(entries[f].well_formed());
            assert(entries[l].well_formed());
        }
        assert forall|d: u32| taken.union(below).union(above).contains(d) implies values.contains(
            d,
        ) by {
            if taken.contains(d) {
                let j = choose|j: int|
                    is_hit(entries, field, level, left, right, j) && docids(
                        entries[j].docids,
                    ).contains(d);
                lemma_hit_holds_values(entries, field, level, left, right, j, d);
            } else if below.contains(d) {
                let z = choose|z: int|
                    is_hit(entries, field, 0, left, Bound::Excluded(left_found), z) && docids(
                        entries[z].docids,
                    ).contains(d);
                assert(entries[z].well_formed()) by {
                    reveal(pyramid_in_order);
                }
                assert(is_hit(entries, field, 0, left, right, z));
            } else {
                let z = choose|z: int|
                    is_hit(entries, field, 0, Bound::Excluded(right_found), right, z) && docids(
                        entries[z].docids,
                    ).contains(d);
                assert(entries[z].well_formed()) by {
                    reveal(pyramid_in_order);
                }
                assert(is_hit(entries, field, 0, left, right, z));
            }
        }
        assert forall|d: u32| values.contains(d) implies taken.union(below).union(above).contains(
            d,
        ) by {
            let z = choose|z: int|
                is_hit(entries, field, 0, left, right, z) && docids(entries[z].docids).contains(d);
            assert(entries[z].well_formed()) by {
                reveal(pyramid_in_order);
            }
            if entries[z].low.key < left_found.key {
                assert(is_hit(entries, field, 0, left, Bound::Excluded(left_found), z));
                assert(lower.contains(d));
            } else if entries[z].low.key > right_found.key {
                assert(is_hit(entries, field, 0, Bound::Excluded(right_found), right, z));
                assert(upper.contains(d));
            } else {
                lemma_value_between_ends_is_taken(entries, field, level, left, right, z, d);
            }
        }
        assert(taken.union(below).union(above) =~= values);
    }
}

/// In a consistent pyramid the walk from any level gathers what the walk from
/// level 0 gathers.
pub proof fn law_descent_from_any_level(
    entries: Seq<NumberEntry>,
    field: FieldId,
    level: u8,
    left: Bound,
    right: Bound,
)
    requires
        pyramid_is_consistent(entries),
    ensures
        descent(entries, field, level, left, right) == descent(entries, field, 0, left, right),
{
    law_descent_gives_values(entries, field, level, left, right);
    law_descent_gives_values(entries, field, 0, left, right);
}

} // verus!
