//! The walk down the numeric pyramid that gathers the documents of an
//! interval.

use crate::bitmap::{bitmap_union_with, docids};
use crate::filter_condition::FilterCondition;
use crate::index::{pyramid_in_order, pyramid_key, FacetIndex, FieldId, NumberEntry};
use crate::number::{ends_exclude_all, interval_is_void, Bound, Number};
use roaring::RoaringBitmap;
use vstd::prelude::*;

verus! {

/// Whether the entry at `i` belongs to level `level` of `field` and lies within
/// the interval.
pub open spec fn is_hit(
    entries: Seq<NumberEntry>,
    field: FieldId,
    level: u8,
    left: Bound,
    right: Bound,
    i: int,
) -> bool {
    0 <= i < entries.len() && entries[i].lies_in(field, level, left, right)
}

/// Whether any entry of level `level` of `field` lies within the interval.
pub open spec fn has_hit(
    entries: Seq<NumberEntry>,
    field: FieldId,
    level: u8,
    left: Bound,
    right: Bound,
) -> bool {
    exists|i: int| is_hit(entries, field, level, left, right, i)
}

/// The first entry of level `level` of `field` that lies within the interval.
#[verifier::opaque]
pub open spec fn first_hit(
    entries: Seq<NumberEntry>,
    field: FieldId,
    level: u8,
    left: Bound,
    right: Bound,
) -> int {
    choose|i: int|
        is_hit(entries, field, level, left, right, i) && forall|j: int|
            is_hit(entries, field, level, left, right, j) ==> i <= j
}

/// The last entry of level `level` of `field` that lies within the interval.
#[verifier::opaque]
pub open spec fn last_hit(
    entries: Seq<NumberEntry>,
    field: FieldId,
    level: u8,
    left: Bound,
    right: Bound,
) -> int {
    choose|i: int|
        is_hit(entries, field, level, left, right, i) && forall|j: int|
            is_hit(entries, field, level, left, right, j) ==> j <= i
}

/// The documents of the entries of level `level` of `field` that lie within
/// the interval.
pub open spec fn level_docids(
    entries: Seq<NumberEntry>,
    field: FieldId,
    level: u8,
    left: Bound,
    right: Bound,
) -> Set<u32> {
    Set::new(
        |d: u32|
            exists|i: int|
                is_hit(entries, field, level, left, right, i) && docids(entries[i].docids).contains(
                    d,
                ),
    )
}

/// The documents that the walk from level `level` gathers for the interval
/// from `left` to `right`.
///
/// An interval of one included value is looked up at level 0. An interval
/// whose ends exclude everything gives nothing. Otherwise the walk takes the
/// entries of the level that lie within the interval. At a level above 0 it
/// then goes one level down: for the whole interval where no entry lay within
/// it, and else for what is left of the interval below the first entry taken
/// and above the last one, unless the entry starts or ends at the included
/// end of the interval.
#[verifier::opaque]
pub open spec fn descent(
    entries: Seq<NumberEntry>,
    field: FieldId,
    level: u8,
    left: Bound,
    right: Bound,
) -> Set<u32>
    decreases level,
{
    if level > 0 && left is Included && right is Included && left.number() == right.number() {
        descent(entries, field, 0, left, right)
    } else if ends_exclude_all(left, right) {
        Set::empty()
    } else {
        let here = level_docids(entries, field, level, left, right);
        if level == 0 {
            here
        } else if !has_hit(entries, field, level, left, right) {
            descent(entries, field, (level - 1) as u8, left, right)
        } else {
            let left_found = entries[first_hit(entries, field, level, left, right)].low;
            let right_found = entries[last_hit(entries, field, level, left, right)].high;
            let below = if left == Bound::Included(left_found) {
                Set::empty()
            } else {
                descent(entries, field, (level - 1) as u8, left, Bound::Excluded(left_found))
            };
            let above = if right == Bound::Included(right_found) {
                Set::empty()
            } else {
                descent(entries, field, (level - 1) as u8, Bound::Excluded(right_found), right)
            };
            here.union(below).union(above)
        }
    }
}

/// Whether the walk goes straight to level 0: the interval is one included
/// value, and the level is above 0.
pub open spec fn is_exact_lookup(level: u8, left: Bound, right: Bound) -> bool {
    level > 0 && left is Included && right is Included && left.number() == right.number()
}

/// What the walk gathers below the first entry taken at a level above 0.
pub open spec fn descent_below(
    entries: Seq<NumberEntry>,
    field: FieldId,
    level: u8,
    left: Bound,
    left_found: Number,
) -> Set<u32>
    recommends
        level > 0,
{
    if left == Bound::Included(left_found) {
        Set::empty()
    } else {
        descent(entries, field, (level - 1) as u8, left, Bound::Excluded(left_found))
    }
}

/// What the walk gathers above the last entry taken at a level above 0.
pub open spec fn descent_above(
    entries: Seq<NumberEntry>,
    field: FieldId,
    level: u8,
    right_found: Number,
    right: Bound,
) -> Set<u32>
    recommends
        level > 0,
{
    if right == Bound::Included(right_found) {
        Set::empty()
    } else {
        descent(entries, field, (level - 1) as u8, Bound::Excluded(right_found), right)
    }
}

/// The walk, one step at a time.
pub proof fn lemma_descent_step(
    entries: Seq<NumberEntry>,
    field: FieldId,
    level: u8,
    left: Bound,
    right: Bound,
)
    ensures
        is_exact_lookup(level, left, right) ==> descent(entries, field, level, left, right)
            == descent(entries, field, 0, left, right),
        !is_exact_lookup(level, left, right) && ends_exclude_all(left, right) ==> descent(
            entries,
            field,
            level,
            left,
            right,
        ) == Set::<u32>::empty(),
        !is_exact_lookup(level, left, right) && !ends_exclude_all(left, right) && level == 0
            ==> descent(entries, field, level, left, right) == level_docids(
            entries,
            field,
            level,
            left,
            right,
        ),
        !is_exact_lookup(level, left, right) && !ends_exclude_all(left, right) && level > 0
            && !has_hit(entries, field, level, left, right) ==> descent(
            entries,
            field,
            level,
            left,
            right,
        ) == descent(entries, field, (level - 1) as u8, left, right),
        !is_exact_lookup(level, left, right) && !ends_exclude_all(left, right) && level > 0
            && has_hit(entries, field, level, left, right) ==> descent(
            entries,
            field,
            level,
            left,
            right,
        ) == level_docids(entries, field, level, left, right).union(
            descent_below(
                entries,
                field,
                level,
                left,
                entries[first_hit(entries, field, level, left, right)].low,
            ),
        ).union(
            descent_above(
                entries,
                field,
                level,
                entries[last_hit(entries, field, level, left, right)].high,
                right,
            ),
        ),
{
    reveal(descent);
}

/// Where no entry of a level lies within the interval, the level gives no
/// document.
pub proof fn lemma_no_hit_no_docids(
    entries: Seq<NumberEntry>,
    field: FieldId,
    level: u8,
    left: Bound,
    right: Bound,
)
    requires
        !has_hit(entries, field, level, left, right),
    ensures
        level_docids(entries, field, level, left, right) == Set::<u32>::empty(),
{
    assert(level_docids(entries, field, level, left, right) =~= Set::<u32>::empty());
}

/// The documents of the entries from `from` up to `to`.
pub open spec fn span_docids(entries: Seq<NumberEntry>, from: int, to: int) -> Set<u32> {
    Set::new(
        |d: u32| exists|i: int| from <= i < to && 0 <= i < entries.len() && docids(entries[i].docids).contains(d),
    )
}

/// The entries from `start` up to `stop` are the entries of the level that lie
/// within the interval, where `start` is the place of the lowest key that the
/// left end admits and `stop` the first place from there on whose entry does
/// not belong to the level or ends beyond the right end.
proof fn lemma_taken_are_the_hits(
    entries: Seq<NumberEntry>,
    field: FieldId,
    level: u8,
    left: Bound,
    right: Bound,
    lowest: Number,
    start: int,
    stop: int,
)
    requires
        pyramid_in_order(entries),
        lowest.key == left.floor(),
        0 <= start <= stop <= entries.len(),
        forall|i: int| 0 <= i < start ==> (#[trigger] entries[i]).key() < pyramid_key(field, level, lowest),
        forall|i: int|
            start <= i < entries.len() ==> (#[trigger] entries[i]).key() >= pyramid_key(
                field,
                level,
                lowest,
            ),
        forall|j: int| start <= j < stop ==> is_hit(entries, field, level, left, right, j),
        stop < entries.len() ==> !(entries[stop].field == field && entries[stop].level == level
            && right.admits_below(entries[stop].high)),
    ensures
        forall|j: int| is_hit(entries, field, level, left, right, j) <==> start <= j < stop,
        level_docids(entries, field, level, left, right) == span_docids(entries, start, stop),
        start < stop ==> first_hit(entries, field, level, left, right) == start,
        start < stop ==> last_hit(entries, field, level, left, right) == stop - 1,
        start < stop <==> has_hit(entries, field, level, left, right),
{
    reveal(pyramid_in_order);
    assert forall|j: int| is_hit(entries, field, level, left, right, j) implies start <= j
        < stop by {
        if j < start {
            assert(entries[j].key() < pyramid_key(field, level, lowest));
        }
        if j >= stop {
            assert(entries[stop].key() >= pyramid_key(field, level, lowest));
            assert(entries[stop].well_formed());
            assert(entries[j].well_formed());
            if j > stop {
                assert(entries[stop].key() < entries[j].key());
            }
        }
    }
    assert forall|d: u32|
        level_docids(entries, field, level, left, right).contains(d) implies span_docids(
        entries,
        start,
        stop,
    ).contains(d) by {
        let i = choose|i: int|
            is_hit(entries, field, level, left, right, i) && docids(entries[i].docids).contains(d);
        assert(start <= i < stop && docids(entries[i].docids).contains(d));
    }
    assert forall|d: u32|
        span_docids(entries, start, stop).contains(d) implies level_docids(
        entries,
        field,
        level,
        left,
        right,
    ).contains(d) by {
        let i = choose|i: int|
            start <= i < stop && 0 <= i < entries.len() && docids(entries[i].docids).contains(d);
        assert(is_hit(entries, field, level, left, right, i));
    }
    assert(level_docids(entries, field, level, left, right) =~= span_docids(entries, start, stop));
    if start < stop {
        reveal(first_hit);
        reveal(last_hit);
        assert(is_hit(entries, field, level, left, right, start));
        assert(is_hit(entries, field, level, left, right, stop - 1));
    }
}

/// Adds to `output` the documents of the entries of level `level` of `field`
/// that lie within the interval, and gives the lower end of the first of them
/// and the upper end of the last, or `None` where there is none.
pub fn take_level(
    index: &FacetIndex,
    field: FieldId,
    level: u8,
    left: Bound,
    right: Bound,
    output: &mut RoaringBitmap,
) -> (found: Option<(Number, Number)>)
    requires
        index.wf(),
        !ends_exclude_all(left, right),
    ensures
        docids(*final(output)) == docids(*old(output)).union(
            level_docids(index.numbers@, field, level, left, right),
        ),
        found is Some <==> has_hit(index.numbers@, field, level, left, right),
        found matches Some((left_found, right_found)) ==> {
            &&& left_found == index.numbers[first_hit(index.numbers@, field, level, left, right)].low
            &&& right_found == index.numbers[last_hit(index.numbers@, field, level, left, right)].high
        },
{
    let ghost entries = index.numbers@;
    let ghost before = docids(*output);
    let lowest = match left {
        Bound::Included(l) => l,
        Bound::Excluded(l) => Number { key: l.key + 1 },
    };
    let start = index.seek(field, level, lowest);
    let n = index.numbers.len();
    let mut i = start;
    assert(before.union(span_docids(entries, start as int, start as int)) =~= before);
    while i < n && index.numbers[i].field == field && index.numbers[i].level == level
        && right.is_right_of(index.numbers[i].high)
        invariant
            entries == index.numbers@,
            n == entries.len(),
            start <= i <= n,
            lowest.key == left.floor(),
            forall|j: int|
                start <= j < n ==> (#[trigger] entries[j]).key() >= pyramid_key(field, level, lowest),
            forall|j: int| start <= j < i ==> is_hit(entries, field, level, left, right, j),
            docids(*output) == before.union(span_docids(entries, start as int, i as int)),
        decreases n - i,
    {
        proof {
            assert(entries[i as int].key() >= pyramid_key(field, level, lowest));
            assert(span_docids(entries, start as int, i + 1) =~= span_docids(
                entries,
                start as int,
                i as int,
            ).union(docids(entries[i as int].docids)));
        }
        bitmap_union_with(output, &index.numbers[i].docids);
        i += 1;
    }
    proof {
        lemma_taken_are_the_hits(entries, field, level, left, right, lowest, start as int, i as int);
    }
    if i > start {
        Some((index.numbers[start].low, index.numbers[i - 1].high))
    } else {
        None
    }
}

impl FilterCondition {
    /// Adds to `output` the documents of `field_id` whose value lies in the
    /// interval from `left` to `right`, walking the pyramid down from `level`.
    pub fn explore_facet_number_levels(
        index: &FacetIndex,
        field_id: FieldId,
        level: u8,
        left: Bound,
        right: Bound,
        output: &mut RoaringBitmap,
    )
        requires
            index.wf(),
        ensures
            docids(*final(output)) == docids(*old(output)).union(
                descent(index.numbers@, field_id, level, left, right),
            ),
        decreases level,
    {
        let ghost entries = index.numbers@;
        let ghost before = docids(*output);
        proof {
            lemma_descent_step(entries, field_id, level, left, right);
        }
        match (left, right) {
            (Bound::Included(l), Bound::Included(r)) => {
                if l.key == r.key && level > 0 {
                    Self::explore_facet_number_levels(index, field_id, 0, left, right, output);
                    return ;
                }
            },
            _ => {},
        }
        if interval_is_void(&left, &right) {
            assert(before.union(Set::empty()) =~= before);
            return ;
        }
        let found = take_level(index, field_id, level, left, right, output);
        if level == 0 {
            return ;
        }
        let deeper_level = level - 1;
        let ghost taken = level_docids(entries, field_id, level, left, right);
        match found {
            Some((left_found, right_found)) => {
                let ghost below = descent_below(entries, field_id, level, left, left_found);
                let ghost above = descent_above(entries, field_id, level, right_found, right);
                let left_is_met = match left {
                    Bound::Included(l) => l.key == left_found.key,
                    Bound::Excluded(_) => false,
                };
                if !left_is_met {
                    Self::explore_facet_number_levels(
                        index,
                        field_id,
                        deeper_level,
                        left,
                        Bound::Excluded(left_found),
                        output,
                    );
                }
                assert(docids(*output) =~= before.union(taken).union(below));
                let right_is_met = match right {
                    Bound::Included(r) => r.key == right_found.key,
                    Bound::Excluded(_) => false,
                };
                if !right_is_met {
                    Self::explore_facet_number_levels(
                        index,
                        field_id,
                        deeper_level,
                        Bound::Excluded(right_found),
                        right,
                        output,
                    );
                }
                assert(docids(*output) =~= before.union(taken.union(below).union(above)));
            },
            None => {
                proof {
                    lemma_no_hit_no_docids(entries, field_id, level, left, right);
                }
                assert(before.union(taken) =~= before);
                Self::explore_facet_number_levels(
                    index,
                    field_id,
                    deeper_level,
                    left,
                    right,
                    output,
                );
            },
        }
    }
}

} // verus!
