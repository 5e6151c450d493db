//! Laws of the evaluation and of the negation of filters.

use crate::bitmap::docids;
use crate::descent::{is_hit, lemma_descent_step};
use crate::evaluate::{
    equal_docids, faceted_docids, filter_docids, is_reached, operator_docids, range_docids,
    reached_docids, search_docids, string_docids,
};
use crate::filter_condition::FilterView;
use crate::index::{is_top_level, pyramid_in_order, top_level, FacetIndex, FieldId, NumberEntry};
use crate::number::{Bound, Number, HIGHEST_KEY, LOWEST_KEY, ZERO_KEY};
use crate::operator::OperatorView;
use crate::pyramid_laws::{law_descent_gives_values, pyramid_is_consistent, value_docids};
use vstd::prelude::*;

verus! {

/// The disjunction of a filter with itself matches what the filter matches.
pub proof fn law_or_is_idempotent(index: FacetIndex, a: FilterView)
    ensures
        filter_docids(index, FilterView::Or(Box::new(a), Box::new(a))) == filter_docids(
            index,
            a,
        ),
{
    assert(filter_docids(index, a).union(filter_docids(index, a)) =~= filter_docids(index, a));
}

/// Conjunction distributes over disjunction: `a AND (b OR c)` matches what
/// `(a AND b) OR (a AND c)` matches.
pub proof fn law_and_distributes_over_or(
    index: FacetIndex,
    a: FilterView,
    b: FilterView,
    c: FilterView,
)
    ensures
        filter_docids(
            index,
            FilterView::And(
                Box::new(a),
                Box::new(FilterView::Or(Box::new(b), Box::new(c))),
            ),
        ) == filter_docids(
            index,
            FilterView::Or(
                Box::new(FilterView::And(Box::new(a), Box::new(b))),
                Box::new(FilterView::And(Box::new(a), Box::new(c))),
            ),
        ),
{
    let da = filter_docids(index, a);
    let db = filter_docids(index, b);
    let dc = filter_docids(index, c);
    let or_bc = FilterView::Or(Box::new(b), Box::new(c));
    let and_ab = FilterView::And(Box::new(a), Box::new(b));
    let and_ac = FilterView::And(Box::new(a), Box::new(c));
    assert(filter_docids(index, or_bc) == db.union(dc));
    assert(filter_docids(index, and_ab) == da.intersect(db));
    assert(filter_docids(index, and_ac) == da.intersect(dc));
    assert(da.intersect(db.union(dc)) =~= da.intersect(db).union(da.intersect(dc)));
}

/// The conjunction of `Empty` with any filter matches no document.
pub proof fn law_empty_dominates_and(index: FacetIndex, x: FilterView)
    ensures
        filter_docids(
            index,
            FilterView::And(Box::new(FilterView::Empty), Box::new(x)),
        ) == Set::<u32>::empty(),
        filter_docids(
            index,
            FilterView::And(Box::new(x), Box::new(FilterView::Empty)),
        ) == Set::<u32>::empty(),
{
    assert(filter_docids(index, FilterView::Empty) == Set::<u32>::empty());
    assert(Set::<u32>::empty().intersect(filter_docids(index, x)) =~= Set::<u32>::empty());
    assert(filter_docids(index, x).intersect(Set::<u32>::empty()) =~= Set::<u32>::empty());
}

/// Whether a filter holds an interval condition.
pub open spec fn holds_interval(filter: FilterView) -> bool
    decreases filter,
{
    match filter {
        FilterView::Operator(_, op) => op is Between,
        FilterView::Or(a, b) => holds_interval(*a) || holds_interval(*b),
        FilterView::And(a, b) => holds_interval(*a) || holds_interval(*b),
        FilterView::Empty => false,
    }
}

/// To negate a filter twice gives the filter back, where it holds no interval
/// condition; both then match the same documents.
pub proof fn law_double_negation(index: FacetIndex, p: FilterView)
    requires
        !holds_interval(p),
    ensures
        p.negated().negated() == p,
        filter_docids(index, p.negated().negated()) == filter_docids(index, p),
    decreases p,
{
    match p {
        FilterView::Operator(_, _) => {},
        FilterView::Or(a, b) => {
            law_double_negation(index, *a);
            law_double_negation(index, *b);
        },
        FilterView::And(a, b) => {
            law_double_negation(index, *a);
            law_double_negation(index, *b);
        },
        FilterView::Empty => {},
    }
}

/// The negation of an interval negated again is the conjunction of its two
/// ends: not below the lower one, and not above the upper one.
pub proof fn law_double_negation_of_interval(field: FieldId, low: Number, high: Number)
    ensures
        FilterView::Operator(field, OperatorView::Between(low, high)).negated().negated()
            == FilterView::And(
            Box::new(FilterView::Operator(field, OperatorView::GreaterThanOrEqual(low))),
            Box::new(FilterView::Operator(field, OperatorView::LowerThanOrEqual(high))),
        ),
{
    let once = FilterView::Operator(field, OperatorView::Between(low, high)).negated();
    assert(once == FilterView::Or(
        Box::new(FilterView::Operator(field, OperatorView::LowerThan(low))),
        Box::new(FilterView::Operator(field, OperatorView::GreaterThan(high))),
    ));
    assert(FilterView::Operator(field, OperatorView::LowerThan(low)).negated()
        == FilterView::Operator(field, OperatorView::GreaterThanOrEqual(low)));
    assert(FilterView::Operator(field, OperatorView::GreaterThan(high)).negated()
        == FilterView::Operator(field, OperatorView::LowerThanOrEqual(high)));
}

/// Where the pyramid has an entry for a field, it has a highest level for it.
proof fn lemma_top_level_exists(entries: Seq<NumberEntry>, field: FieldId, i: int, ceiling: u8)
    requires
        0 <= i < entries.len(),
        entries[i].field == field,
        forall|j: int|
            0 <= j < entries.len() && (#[trigger] entries[j]).field == field ==> entries[j].level
                <= ceiling,
    ensures
        top_level(entries, field) is Some,
        is_top_level(entries, field, top_level(entries, field).unwrap()),
    decreases ceiling,
{
    if exists|j: int|
        0 <= j < entries.len() && (#[trigger] entries[j]).field == field && entries[j].level
            == ceiling {
        assert(is_top_level(entries, field, ceiling));
    } else {
        assert(entries[i].level < ceiling);
        lemma_top_level_exists(entries, field, i, (ceiling - 1) as u8);
    }
}

/// Where the pyramid has no highest level for a field, it has no value for
/// it.
proof fn lemma_no_top_level_no_values(
    entries: Seq<NumberEntry>,
    field: FieldId,
    left: Bound,
    right: Bound,
)
    requires
        top_level(entries, field) is None,
    ensures
        value_docids(entries, field, left, right) == Set::<u32>::empty(),
{
    assert forall|i: int| !is_hit(entries, field, 0, left, right, i) by {
        if is_hit(entries, field, 0, left, right, i) {
            lemma_top_level_exists(entries, field, i, 255);
        }
    }
    assert(value_docids(entries, field, left, right) =~= Set::<u32>::empty());
}

/// Against a consistent pyramid, the walk from the top gathers the documents
/// of the values of the interval.
pub proof fn law_range_gives_values(
    entries: Seq<NumberEntry>,
    field: FieldId,
    left: Bound,
    right: Bound,
)
    requires
        pyramid_is_consistent(entries),
    ensures
        range_docids(entries, field, left, right) == value_docids(entries, field, left, right),
{
    match top_level(entries, field) {
        Some(level) => law_descent_gives_values(entries, field, level, left, right),
        None => lemma_no_top_level_no_values(entries, field, left, right),
    }
}

/// The documents of `field` that store the number `v`.
pub open spec fn stored_docids(entries: Seq<NumberEntry>, field: FieldId, v: Number) -> Set<u32> {
    Set::new(
        |d: u32|
            exists|i: int|
                0 <= i < entries.len() && (#[trigger] entries[i]).field == field
                    && entries[i].level == 0 && entries[i].low == v && docids(
                    entries[i].docids,
                ).contains(d),
    )
}

/// An interval whose lower end lies above its upper end matches no document.
pub proof fn law_reversed_interval_is_empty(
    index: FacetIndex,
    field: FieldId,
    low: Number,
    high: Number,
)
    requires
        low.key > high.key,
    ensures
        operator_docids(index, field, OperatorView::Between(low, high)) == Set::<u32>::empty(),
{
    let left = Bound::Included(low);
    let right = Bound::Included(high);
    match top_level(index.numbers@, field) {
        Some(level) => lemma_descent_step(index.numbers@, field, level, left, right),
        None => {},
    }
}

/// An interval of one value matches exactly the documents that store the
/// value, and so does the numeric side of an equality.
pub proof fn law_single_value_interval(index: FacetIndex, field: FieldId, v: Number)
    requires
        index.wf(),
    ensures
        operator_docids(index, field, OperatorView::Between(v, v)) == stored_docids(
            index.numbers@,
            field,
            v,
        ),
        range_docids(index.numbers@, field, Bound::Included(v), Bound::Included(v))
            == stored_docids(index.numbers@, field, v),
{
    let entries = index.numbers@;
    let left = Bound::Included(v);
    let right = Bound::Included(v);
    reveal(pyramid_in_order);
    assert forall|d: u32| value_docids(entries, field, left, right).contains(d) implies stored_docids(
        entries,
        field,
        v,
    ).contains(d) by {
        let i = choose|i: int|
            is_hit(entries, field, 0, left, right, i) && docids(entries[i].docids).contains(d);
        assert(entries[i].well_formed());
        assert(entries[i].low == v);
    }
    assert forall|d: u32| stored_docids(entries, field, v).contains(d) implies value_docids(
        entries,
        field,
        left,
        right,
    ).contains(d) by {
        let i = choose|i: int|
            0 <= i < entries.len() && (#[trigger] entries[i]).field == field && entries[i].level
                == 0 && entries[i].low == v && docids(entries[i].docids).contains(d);
        assert(entries[i].well_formed());
        assert(is_hit(entries, field, 0, left, right, i));
    }
    assert(value_docids(entries, field, left, right) =~= stored_docids(entries, field, v));
    match top_level(entries, field) {
        Some(level) => {
            lemma_descent_step(entries, field, level, left, right);
            lemma_descent_step(entries, field, 0, left, right);
        },
        None => lemma_no_top_level_no_values(entries, field, left, right),
    }
}

/// An equality on a field that has no string and no number matches no
/// document.
pub proof fn law_equality_on_bare_field(
    index: FacetIndex,
    field: FieldId,
    number: Option<Number>,
    string: Seq<char>,
)
    requires
        forall|i: int| 0 <= i < index.strings.len() ==> (#[trigger] index.strings[i]).field != field,
        forall|i: int| 0 <= i < index.numbers.len() ==> (#[trigger] index.numbers[i]).field != field,
    ensures
        operator_docids(index, field, OperatorView::Equal(number, string)) == Set::<u32>::empty(),
{
    assert(string_docids(index.strings@, field, string) =~= Set::<u32>::empty());
    assert(top_level(index.numbers@, field) is None) by {
        if top_level(index.numbers@, field) is Some {
            let level = choose|level: u8| is_top_level(index.numbers@, field, level);
            assert(is_top_level(index.numbers@, field, level));
        }
    }
    assert(Set::<u32>::empty().union(Set::<u32>::empty()) =~= Set::<u32>::empty());
}

/// Whether no neighbour of a search lies at a negative distance.
pub open spec fn distances_are_not_negative(index: FacetIndex) -> bool {
    index.geo matches Some(searches) ==> forall|s: int, j: int|
        0 <= s < searches.len() && 0 <= j < searches[s].neighbours.len() ==> (
        #[trigger] searches[s].neighbours[j]).distance.key >= ZERO_KEY
}

/// A radius of zero reaches no document: a document lies within a radius only
/// where its distance is strictly lower.
pub proof fn law_zero_radius_is_empty(index: FacetIndex, field: FieldId, lat: Number, lng: Number)
    requires
        distances_are_not_negative(index),
    ensures
        operator_docids(index, field, OperatorView::GeoLowerThan(lat, lng, Number { key: ZERO_KEY }))
            == Set::<u32>::empty(),
{
    let radius = Number { key: ZERO_KEY };
    match index.geo {
        Some(searches) => {
            assert forall|d: u32| !search_docids(searches@, lat, lng, radius).contains(d) by {
                if search_docids(searches@, lat, lng, radius).contains(d) {
                    let s = choose|s: int|
                        0 <= s < searches.len() && crate::evaluate::is_centered(
                            #[trigger] searches@[s],
                            lat,
                            lng,
                        ) && reached_docids(searches@[s].neighbours@, radius).contains(d);
                    let j = choose|j: int| #[trigger]
                        is_reached(searches@[s].neighbours@, radius, j)
                            && searches@[s].neighbours@[j].docid == d;
                    assert(searches[s].neighbours[j].distance.key >= ZERO_KEY);
                    assert(searches@[s].neighbours@[j].distance.key < radius.key);
                }
            }
            assert(search_docids(searches@, lat, lng, radius) =~= Set::<u32>::empty());
        },
        None => {},
    }
}

/// Whether the documents listed as having a number for `field` are the
/// documents of the values that the pyramid holds for it.
pub open spec fn numbers_are_faceted(index: FacetIndex, field: FieldId) -> bool {
    faceted_docids(index.number_faceted@, field) == value_docids(
        index.numbers@,
        field,
        Bound::Included(Number { key: LOWEST_KEY }),
        Bound::Included(Number { key: HIGHEST_KEY }),
    )
}

/// On a field that has numbers only, the documents above a value, those at
/// the value and those below it are together the documents that have a number
/// for the field.
pub proof fn law_bounds_symmetry(index: FacetIndex, field: FieldId, v: Number, string: Seq<char>)
    requires
        pyramid_is_consistent(index.numbers@),
        numbers_are_faceted(index, field),
        forall|i: int| 0 <= i < index.strings.len() ==> (#[trigger] index.strings[i]).field != field,
    ensures
        operator_docids(index, field, OperatorView::GreaterThan(v)).union(
            operator_docids(index, field, OperatorView::Equal(Some(v), string)),
        ).union(operator_docids(index, field, OperatorView::LowerThan(v))) == faceted_docids(
            index.number_faceted@,
            field,
        ),
{
    let entries = index.numbers@;
    let lowest = Bound::Included(Number { key: LOWEST_KEY });
    let highest = Bound::Included(Number { key: HIGHEST_KEY });
    law_range_gives_values(entries, field, Bound::Excluded(v), highest);
    law_range_gives_values(entries, field, Bound::Included(v), Bound::Included(v));
    law_range_gives_values(entries, field, lowest, Bound::Excluded(v));
    let above = value_docids(entries, field, Bound::Excluded(v), highest);
    let at = value_docids(entries, field, Bound::Included(v), Bound::Included(v));
    let below = value_docids(entries, field, lowest, Bound::Excluded(v));
    let all = value_docids(entries, field, lowest, highest);
    assert(string_docids(index.strings@, field, string) =~= Set::<u32>::empty());
    assert(equal_docids(index, field, Some(v), string) =~= at);
    reveal(pyramid_in_order);
    assert forall|d: u32| all.contains(d) implies above.union(at).union(below).contains(d) by {
        let i = choose|i: int|
            is_hit(entries, field, 0, lowest, highest, i) && docids(entries[i].docids).contains(d);
        assert(entries[i].well_formed());
        if entries[i].low.key > v.key {
            assert(is_hit(entries, field, 0, Bound::Excluded(v), highest, i));
        } else if entries[i].low.key < v.key {
            assert(is_hit(entries, field, 0, lowest, Bound::Excluded(v), i));
        } else {
            assert(is_hit(entries, field, 0, Bound::Included(v), Bound::Included(v), i));
        }
    }
    assert forall|d: u32| above.union(at).union(below).contains(d) implies all.contains(d) by {
        if above.contains(d) {
            let i = choose|i: int|
                is_hit(entries, field, 0, Bound::Excluded(v), highest, i) && docids(
                    entries[i].docids,
                ).contains(d);
            assert(is_hit(entries, field, 0, lowest, highest, i));
        } else if at.contains(d) {
            let i = choose|i: int|
                is_hit(entries, field, 0, Bound::Included(v), Bound::Included(v), i) && docids(
                    entries[i].docids,
                ).contains(d);
            assert(is_hit(entries, field, 0, lowest, highest, i));
        } else {
            let i = choose|i: int|
                is_hit(entries, field, 0, lowest, Bound::Excluded(v), i) && docids(
                    entries[i].docids,
                ).contains(d);
            assert(is_hit(entries, field, 0, lowest, highest, i));
        }
    }
    assert(above.union(at).union(below) =~= all);
}

/// Whether no document holds two numbers for one field: no two entries of
/// level 0 of one field share a document.
pub open spec fn numbers_are_single(entries: Seq<NumberEntry>) -> bool {
    forall|i: int, j: int, d: u32|
        0 <= i < entries.len() && 0 <= j < entries.len() && i != j && entries[i].level == 0
            && entries[j].level == 0 && entries[i].field == entries[j].field && #[trigger] docids(
            entries[i].docids,
        ).contains(d) ==> !#[trigger] docids(entries[j].docids).contains(d)
}

/// Where no document holds two numbers for one field, the documents that lie
/// neither below an interval nor above it are the documents of the interval.
proof fn lemma_interval_is_its_two_ends(index: FacetIndex, field: FieldId, low: Number, high: Number)
    requires
        pyramid_is_consistent(index.numbers@),
        numbers_are_single(index.numbers@),
    ensures
        operator_docids(index, field, OperatorView::GreaterThanOrEqual(low)).intersect(
            operator_docids(index, field, OperatorView::LowerThanOrEqual(high)),
        ) == operator_docids(index, field, OperatorView::Between(low, high)),
{
    let entries = index.numbers@;
    let lowest = Bound::Included(Number { key: LOWEST_KEY });
    let highest = Bound::Included(Number { key: HIGHEST_KEY });
    law_range_gives_values(entries, field, Bound::Included(low), highest);
    law_range_gives_values(entries, field, lowest, Bound::Included(high));
    law_range_gives_values(entries, field, Bound::Included(low), Bound::Included(high));
    let from = value_docids(entries, field, Bound::Included(low), highest);
    let to = value_docids(entries, field, lowest, Bound::Included(high));
    let between = value_docids(entries, field, Bound::Included(low), Bound::Included(high));
    reveal(pyramid_in_order);
    assert forall|d: u32| from.intersect(to).contains(d) implies between.contains(d) by {
        let i = choose|i: int|
            is_hit(entries, field, 0, Bound::Included(low), highest, i) && docids(
                entries[i].docids,
            ).contains(d);
        let j = choose|j: int|
            is_hit(entries, field, 0, lowest, Bound::Included(high), j) && docids(
                entries[j].docids,
            ).contains(d);
        assert(entries[i].well_formed());
        assert(entries[j].well_formed());
        assert(i == j);
        assert(is_hit(entries, field, 0, Bound::Included(low), Bound::Included(high), i));
    }
    assert forall|d: u32| between.contains(d) implies from.intersect(to).contains(d) by {
        let i = choose|i: int|
            is_hit(entries, field, 0, Bound::Included(low), Bound::Included(high), i) && docids(
                entries[i].docids,
            ).contains(d);
        assert(entries[i].well_formed());
        assert(is_hit(entries, field, 0, Bound::Included(low), highest, i));
        assert(is_hit(entries, field, 0, lowest, Bound::Included(high), i));
    }
    assert(from.intersect(to) =~= between);
}

/// Against a consistent pyramid in which no document holds two numbers for
/// one field, to negate a filter twice gives a filter that matches the same
/// documents.
pub proof fn law_double_negation_matches(index: FacetIndex, p: FilterView)
    requires
        pyramid_is_consistent(index.numbers@),
        numbers_are_single(index.numbers@),
    ensures
        filter_docids(index, p.negated().negated()) == filter_docids(index, p),
    decreases p,
{
    match p {
        FilterView::Operator(field, OperatorView::Between(low, high)) => {
            law_double_negation_of_interval(field, low, high);
            lemma_interval_is_its_two_ends(index, field, low, high);
            let from = FilterView::Operator(field, OperatorView::GreaterThanOrEqual(low));
            let to = FilterView::Operator(field, OperatorView::LowerThanOrEqual(high));
            assert(filter_docids(index, from) == operator_docids(
                index,
                field,
                OperatorView::GreaterThanOrEqual(low),
            ));
            assert(filter_docids(index, to) == operator_docids(
                index,
                field,
                OperatorView::LowerThanOrEqual(high),
            ));
        },
        FilterView::Operator(_, _) => {},
        FilterView::Or(a, b) => {
            law_double_negation_matches(index, *a);
            law_double_negation_matches(index, *b);
        },
        FilterView::And(a, b) => {
            law_double_negation_matches(index, *a);
            law_double_negation_matches(index, *b);
        },
        FilterView::Empty => {},
    }
}

} // verus!
