//! The evaluation of a filter against the facet indices.

use crate::bitmap::{
    bitmap_difference, bitmap_insert, bitmap_intersection, bitmap_new, bitmap_union,
    bitmap_union_with, docids,
};
use crate::descent::descent;
use crate::filter_condition::{FilterCondition, FilterView};
use crate::index::{
    top_level, FacetIndex, FieldDocids, FieldId, GeoNeighbour, GeoSearch, NumberEntry, StringEntry,
};
use crate::number::{Bound, Number, HIGHEST_KEY, LOWEST_KEY};
use crate::operator::{Operator, OperatorView};
use crate::text::{has_part, text_contains};
use roaring::RoaringBitmap;
use vstd::prelude::*;

verus! {

/// The documents that the walk from the top of the pyramid gathers for an
/// interval of the values of `field`: nothing where the pyramid has no entry
/// for the field.
pub open spec fn range_docids(
    entries: Seq<NumberEntry>,
    field: FieldId,
    left: Bound,
    right: Bound,
) -> Set<u32> {
    match top_level(entries, field) {
        Some(level) => descent(entries, field, level, left, right),
        None => Set::empty(),
    }
}

/// The documents of `field` that store the string `value`.
pub open spec fn string_docids(strings: Seq<StringEntry>, field: FieldId, value: Seq<char>) -> Set<
    u32,
> {
    Set::new(
        |d: u32|
            exists|i: int|
                0 <= i < strings.len() && (#[trigger] strings[i]).field == field
                    && strings[i].value@ == value && docids(strings[i].docids).contains(d),
    )
}

/// The documents of the entries of the string index whose string contains
/// `part`, where `wanted` holds, and of those whose string does not, where it
/// does not.
pub open spec fn part_docids(strings: Seq<StringEntry>, part: Seq<char>, wanted: bool) -> Set<u32> {
    Set::new(
        |d: u32|
            exists|i: int|
                0 <= i < strings.len() && has_part((#[trigger] strings[i]).value@, part) == wanted
                    && docids(strings[i].docids).contains(d),
    )
}

/// The documents that a list of documents per field gives for `field`.
pub open spec fn faceted_docids(list: Seq<FieldDocids>, field: FieldId) -> Set<u32> {
    Set::new(
        |d: u32|
            exists|i: int|
                0 <= i < list.len() && (#[trigger] list[i]).field == field && docids(
                    list[i].docids,
                ).contains(d),
    )
}

/// Whether the neighbour at `j` is reached when the neighbours are taken in
/// order for as long as they lie closer than `radius`.
pub open spec fn is_reached(neighbours: Seq<GeoNeighbour>, radius: Number, j: int) -> bool {
    0 <= j < neighbours.len() && forall|k: int|
        0 <= k <= j ==> (#[trigger] neighbours[k]).distance.key < radius.key
}

/// The documents of the neighbours that are reached within `radius`.
pub open spec fn reached_docids(neighbours: Seq<GeoNeighbour>, radius: Number) -> Set<u32> {
    Set::new(
        |d: u32|
            exists|j: int| #[trigger] is_reached(neighbours, radius, j) && neighbours[j].docid == d,
    )
}

/// Whether a search starts from the point at `lat` and `lng`.
pub open spec fn is_centered(search: GeoSearch, lat: Number, lng: Number) -> bool {
    search.center[0] == lat && search.center[1] == lng
}

/// The documents that the searches from the point reach within `radius`.
pub open spec fn search_docids(
    searches: Seq<GeoSearch>,
    lat: Number,
    lng: Number,
    radius: Number,
) -> Set<u32> {
    Set::new(
        |d: u32|
            exists|s: int|
                0 <= s < searches.len() && is_centered(#[trigger] searches[s], lat, lng)
                    && reached_docids(searches[s].neighbours@, radius).contains(d),
    )
}

/// The documents that lie closer to the point than `radius`: those that the
/// searches from the point reach, and none where the index holds no position.
pub open spec fn near_docids(
    geo: Option<Vec<GeoSearch>>,
    lat: Number,
    lng: Number,
    radius: Number,
) -> Set<u32> {
    match geo {
        Some(searches) => search_docids(searches@, lat, lng, radius),
        None => Set::empty(),
    }
}

/// The documents whose value for `field` is the number or the string.
pub open spec fn equal_docids(
    index: FacetIndex,
    field: FieldId,
    number: Option<Number>,
    string: Seq<char>,
) -> Set<u32> {
    string_docids(index.strings@, field, string).union(
        match number {
            Some(n) => range_docids(index.numbers@, field, Bound::Included(n), Bound::Included(n)),
            None => Set::empty(),
        },
    )
}

/// The documents that meet a condition on `field`.
pub open spec fn operator_docids(index: FacetIndex, field: FieldId, op: OperatorView) -> Set<u32> {
    let lowest = Bound::Included(Number { key: LOWEST_KEY });
    let highest = Bound::Included(Number { key: HIGHEST_KEY });
    match op {
        OperatorView::GreaterThan(n) => range_docids(index.numbers@, field, Bound::Excluded(n), highest),
        OperatorView::GreaterThanOrEqual(n) => range_docids(
            index.numbers@,
            field,
            Bound::Included(n),
            highest,
        ),
        OperatorView::LowerThan(n) => range_docids(index.numbers@, field, lowest, Bound::Excluded(n)),
        OperatorView::LowerThanOrEqual(n) => range_docids(
            index.numbers@,
            field,
            lowest,
            Bound::Included(n),
        ),
        OperatorView::Between(n, m) => range_docids(
            index.numbers@,
            field,
            Bound::Included(n),
            Bound::Included(m),
        ),
        OperatorView::Equal(n, s) => equal_docids(index, field, n, s),
        OperatorView::NotEqual(n, s) => (if n is Some {
            faceted_docids(index.number_faceted@, field)
        } else {
            Set::empty()
        }).union(faceted_docids(index.string_faceted@, field)).difference(
            equal_docids(index, field, n, s),
        ),
        OperatorView::Includes(_, s) => part_docids(index.strings@, s, true),
        OperatorView::NotIncludes(_, s) => part_docids(index.strings@, s, false),
        OperatorView::GeoLowerThan(lat, lng, radius) => near_docids(index.geo, lat, lng, radius),
        OperatorView::GeoGreaterThan(lat, lng, radius) => docids(index.geo_faceted).difference(
            near_docids(index.geo, lat, lng, radius),
        ),
    }
}

/// The documents that match a filter: those of a condition, the union for
/// `Or`, the intersection for `And`, none for `Empty`.
pub open spec fn filter_docids(index: FacetIndex, filter: FilterView) -> Set<u32>
    decreases filter,
{
    match filter {
        FilterView::Operator(field, op) => operator_docids(index, field, op),
        FilterView::Or(lhs, rhs) => filter_docids(index, *lhs).union(
            filter_docids(index, *rhs),
        ),
        FilterView::And(lhs, rhs) => filter_docids(index, *lhs).intersect(
            filter_docids(index, *rhs),
        ),
        FilterView::Empty => Set::empty(),
    }
}

/// Gathers the documents of `field` whose value lies in an interval, walking
/// the pyramid down from the highest level that it has for the field.
pub fn find_range(index: &FacetIndex, field: FieldId, left: Bound, right: Bound) -> (r:
    RoaringBitmap)
    requires
        index.wf(),
    ensures
        docids(r) == range_docids(index.numbers@, field, left, right),
{
    let mut output = bitmap_new();
    match index.top_level(field) {
        Some(level) => {
            FilterCondition::explore_facet_number_levels(
                index,
                field,
                level,
                left,
                right,
                &mut output,
            );
            assert(Set::<u32>::empty().union(descent(index.numbers@, field, level, left, right))
                =~= descent(index.numbers@, field, level, left, right));
        },
        None => {},
    }
    output
}

/// What one more entry adds to the documents of a string.
proof fn lemma_string_docids_step(strings: Seq<StringEntry>, i: int, field: FieldId, value: Seq<char>)
    requires
        0 <= i < strings.len(),
    ensures
        string_docids(strings.subrange(0, i + 1), field, value) == if strings[i].field == field
            && strings[i].value@ == value {
            string_docids(strings.subrange(0, i), field, value).union(docids(strings[i].docids))
        } else {
            string_docids(strings.subrange(0, i), field, value)
        },
{
    let seen = strings.subrange(0, i);
    let next = strings.subrange(0, i + 1);
    let more = if strings[i].field == field && strings[i].value@ == value {
        string_docids(seen, field, value).union(docids(strings[i].docids))
    } else {
        string_docids(seen, field, value)
    };
    assert forall|d: u32| more.contains(d) implies string_docids(next, field, value).contains(
        d,
    ) by {
        if string_docids(seen, field, value).contains(d) {
            let k = choose|k: int|
                0 <= k < seen.len() && (#[trigger] seen[k]).field == field && seen[k].value@
                    == value && docids(seen[k].docids).contains(d);
            assert(next[k] == seen[k]);
        } else {
            assert(next[i] == strings[i]);
        }
    }
    assert forall|d: u32| string_docids(next, field, value).contains(d) implies more.contains(
        d,
    ) by {
        let k = choose|k: int|
            0 <= k < next.len() && (#[trigger] next[k]).field == field && next[k].value@ == value
                && docids(next[k].docids).contains(d);
        if k < i {
            assert(seen[k] == next[k]);
        }
    }
    assert(string_docids(next, field, value) =~= more);
}

/// What one more entry adds to the documents of the strings that contain a
/// part, or of those that do not.
proof fn lemma_part_docids_step(strings: Seq<StringEntry>, i: int, part: Seq<char>, wanted: bool)
    requires
        0 <= i < strings.len(),
    ensures
        part_docids(strings.subrange(0, i + 1), part, wanted) == if has_part(
            strings[i].value@,
            part,
        ) == wanted {
            part_docids(strings.subrange(0, i), part, wanted).union(docids(strings[i].docids))
        } else {
            part_docids(strings.subrange(0, i), part, wanted)
        },
{
    let seen = strings.subrange(0, i);
    let next = strings.subrange(0, i + 1);
    let more = if has_part(strings[i].value@, part) == wanted {
        part_docids(seen, part, wanted).union(docids(strings[i].docids))
    } else {
        part_docids(seen, part, wanted)
    };
    assert forall|d: u32| more.contains(d) implies part_docids(next, part, wanted).contains(d) by {
        if part_docids(seen, part, wanted).contains(d) {
            let k = choose|k: int|
                0 <= k < seen.len() && has_part((#[trigger] seen[k]).value@, part) == wanted
                    && docids(seen[k].docids).contains(d);
            assert(next[k] == seen[k]);
        } else {
            assert(next[i] == strings[i]);
        }
    }
    assert forall|d: u32| part_docids(next, part, wanted).contains(d) implies more.contains(d) by {
        let k = choose|k: int|
            0 <= k < next.len() && has_part((#[trigger] next[k]).value@, part) == wanted
                && docids(next[k].docids).contains(d);
        if k < i {
            assert(seen[k] == next[k]);
        }
    }
    assert(part_docids(next, part, wanted) =~= more);
}

/// What one more entry adds to the documents of a field.
proof fn lemma_faceted_docids_step(list: Seq<FieldDocids>, i: int, field: FieldId)
    requires
        0 <= i < list.len(),
    ensures
        faceted_docids(list.subrange(0, i + 1), field) == if list[i].field == field {
            faceted_docids(list.subrange(0, i), field).union(docids(list[i].docids))
        } else {
            faceted_docids(list.subrange(0, i), field)
        },
{
    let seen = list.subrange(0, i);
    let next = list.subrange(0, i + 1);
    let more = if list[i].field == field {
        faceted_docids(seen, field).union(docids(list[i].docids))
    } else {
        faceted_docids(seen, field)
    };
    assert forall|d: u32| more.contains(d) implies faceted_docids(next, field).contains(d) by {
        if faceted_docids(seen, field).contains(d) {
            let k = choose|k: int|
                0 <= k < seen.len() && (#[trigger] seen[k]).field == field && docids(
                    seen[k].docids,
                ).contains(d);
            assert(next[k] == seen[k]);
        } else {
            assert(next[i] == list[i]);
        }
    }
    assert forall|d: u32| faceted_docids(next, field).contains(d) implies more.contains(d) by {
        let k = choose|k: int|
            0 <= k < next.len() && (#[trigger] next[k]).field == field && docids(
                next[k].docids,
            ).contains(d);
        if k < i {
            assert(seen[k] == next[k]);
        }
    }
    assert(faceted_docids(next, field) =~= more);
}

/// Gathers the documents of `field` that store the string `value`.
pub fn find_string(index: &FacetIndex, field: FieldId, value: &String) -> (r: RoaringBitmap)
    ensures
        docids(r) == string_docids(index.strings@, field, value@),
{
    let mut output = bitmap_new();
    let n = index.strings.len();
    let mut i: usize = 0;
    assert(string_docids(index.strings@.subrange(0, 0), field, value@) =~= Set::<u32>::empty());
    while i < n
        invariant
            0 <= i <= n,
            n == index.strings.len(),
            docids(output) == string_docids(index.strings@.subrange(0, i as int), field, value@),
        decreases n - i,
    {
        proof {
            lemma_string_docids_step(index.strings@, i as int, field, value@);
        }
        let entry = &index.strings[i];
        if entry.field == field && entry.value == *value {
            bitmap_union_with(&mut output, &entry.docids);
        }
        i += 1;
    }
    assert(index.strings@.subrange(0, n as int) == index.strings@);
    output
}

/// Gathers the documents of the entries of the string index whose string
/// contains `part`, where `wanted` holds, and of those whose string does not,
/// where it does not.
pub fn find_part(index: &FacetIndex, part: &String, wanted: bool) -> (r: RoaringBitmap)
    ensures
        docids(r) == part_docids(index.strings@, part@, wanted),
{
    let mut output = bitmap_new();
    let n = index.strings.len();
    let mut i: usize = 0;
    assert(part_docids(index.strings@.subrange(0, 0), part@, wanted) =~= Set::<u32>::empty());
    while i < n
        invariant
            0 <= i <= n,
            n == index.strings.len(),
            docids(output) == part_docids(index.strings@.subrange(0, i as int), part@, wanted),
        decreases n - i,
    {
        proof {
            lemma_part_docids_step(index.strings@, i as int, part@, wanted);
        }
        let entry = &index.strings[i];
        if text_contains(entry.value.as_str(), part.as_str()) == wanted {
            bitmap_union_with(&mut output, &entry.docids);
        }
        i += 1;
    }
    assert(index.strings@.subrange(0, n as int) == index.strings@);
    output
}

/// Gathers the documents that a list of documents per field gives for
/// `field`.
pub fn find_faceted(list: &Vec<FieldDocids>, field: FieldId) -> (r: RoaringBitmap)
    ensures
        docids(r) == faceted_docids(list@, field),
{
    let mut output = bitmap_new();
    let n = list.len();
    let mut i: usize = 0;
    assert(faceted_docids(list@.subrange(0, 0), field) =~= Set::<u32>::empty());
    while i < n
        invariant
            0 <= i <= n,
            n == list.len(),
            docids(output) == faceted_docids(list@.subrange(0, i as int), field),
        decreases n - i,
    {
        proof {
            lemma_faceted_docids_step(list@, i as int, field);
        }
        if list[i].field == field {
            bitmap_union_with(&mut output, &list[i].docids);
        }
        i += 1;
    }
    assert(list@.subrange(0, n as int) == list@);
    output
}

/// What one more search adds to the documents near a point.
proof fn lemma_search_docids_step(
    searches: Seq<GeoSearch>,
    i: int,
    lat: Number,
    lng: Number,
    radius: Number,
)
    requires
        0 <= i < searches.len(),
    ensures
        search_docids(searches.subrange(0, i + 1), lat, lng, radius) == if is_centered(
            searches[i],
            lat,
            lng,
        ) {
            search_docids(searches.subrange(0, i), lat, lng, radius).union(
                reached_docids(searches[i].neighbours@, radius),
            )
        } else {
            search_docids(searches.subrange(0, i), lat, lng, radius)
        },
{
    let seen = searches.subrange(0, i);
    let next = searches.subrange(0, i + 1);
    let more = if is_centered(searches[i], lat, lng) {
        search_docids(seen, lat, lng, radius).union(reached_docids(searches[i].neighbours@, radius))
    } else {
        search_docids(seen, lat, lng, radius)
    };
    assert forall|d: u32| more.contains(d) implies search_docids(next, lat, lng, radius).contains(
        d,
    ) by {
        if search_docids(seen, lat, lng, radius).contains(d) {
            let k = choose|k: int|
                0 <= k < seen.len() && is_centered(#[trigger] seen[k], lat, lng) && reached_docids(
                    seen[k].neighbours@,
                    radius,
                ).contains(d);
            assert(next[k] == seen[k]);
        } else {
            assert(next[i] == searches[i]);
        }
    }
    assert forall|d: u32| search_docids(next, lat, lng, radius).contains(d) implies more.contains(
        d,
    ) by {
        let k = choose|k: int|
            0 <= k < next.len() && is_centered(#[trigger] next[k], lat, lng) && reached_docids(
                next[k].neighbours@,
                radius,
            ).contains(d);
        if k < i {
            assert(seen[k] == next[k]);
        }
    }
    assert(search_docids(next, lat, lng, radius) =~= more);
}

/// Adds to `output` the documents of the neighbours, taken in order for as
/// long as they lie closer than `radius`.
pub fn take_reached(neighbours: &Vec<GeoNeighbour>, radius: Number, output: &mut RoaringBitmap)
    ensures
        docids(*final(output)) == docids(*old(output)).union(reached_docids(neighbours@, radius)),
{
    let ghost before = docids(*output);
    let ghost taken = Set::<u32>::empty();
    let n = neighbours.len();
    let mut j: usize = 0;
    assert(before.union(taken) =~= before);
    while j < n && neighbours[j].distance.key < radius.key
        invariant
            0 <= j <= n,
            n == neighbours.len(),
            forall|k: int| 0 <= k < j ==> (#[trigger] neighbours[k]).distance.key < radius.key,
            forall|d: u32|
                taken.contains(d) <==> exists|k: int|
                    0 <= k < j && (#[trigger] neighbours[k]).docid == d,
            docids(*output) == before.union(taken),
        decreases n - j,
    {
        let ghost earlier = taken;
        bitmap_insert(output, neighbours[j].docid);
        proof {
            taken = earlier.insert(neighbours[j as int].docid);
            assert(before.union(earlier).insert(neighbours[j as int].docid) =~= before.union(taken));
            assert forall|d: u32| taken.contains(d) implies exists|k: int|
                0 <= k < j + 1 && (#[trigger] neighbours[k]).docid == d by {
                if earlier.contains(d) {
                    let k = choose|k: int| 0 <= k < j && (#[trigger] neighbours[k]).docid == d;
                    assert(0 <= k < j + 1 && neighbours[k].docid == d);
                } else {
                    assert(neighbours[j as int].docid == d);
                }
            }
        }
        j += 1;
    }
    proof {
        assert forall|d: u32| taken.contains(d) implies reached_docids(
            neighbours@,
            radius,
        ).contains(d) by {
            let k = choose|k: int| 0 <= k < j && (#[trigger] neighbours[k]).docid == d;
            assert(is_reached(neighbours@, radius, k));
        }
        assert forall|d: u32| reached_docids(neighbours@, radius).contains(d) implies taken.contains(
            d,
        ) by {
            let k = choose|k: int|
                #[trigger] is_reached(neighbours@, radius, k) && neighbours[k].docid == d;
            if k >= j {
                assert(neighbours[j as int].distance.key < radius.key);
            }
            assert(0 <= k < j && neighbours[k].docid == d);
        }
        assert(taken =~= reached_docids(neighbours@, radius));
    }
}

/// Gathers the documents that lie closer to `point` than `radius`.
pub fn find_near(index: &FacetIndex, point: &[Number; 2], radius: Number) -> (r: RoaringBitmap)
    ensures
        docids(r) == near_docids(index.geo, point[0], point[1], radius),
{
    let mut output = bitmap_new();
    match &index.geo {
        Some(searches) => {
            let n = searches.len();
            let mut i: usize = 0;
            assert(search_docids(searches@.subrange(0, 0), point[0], point[1], radius) =~= Set::<u32>::empty());
            while i < n
                invariant
                    0 <= i <= n,
                    n == searches.len(),
                    docids(output) == search_docids(
                        searches@.subrange(0, i as int),
                        point[0],
                        point[1],
                        radius,
                    ),
                decreases n - i,
            {
                proof {
                    lemma_search_docids_step(searches@, i as int, point[0], point[1], radius);
                }
                let search = &searches[i];
                if search.center[0].key == point[0].key && search.center[1].key == point[1].key {
                    take_reached(&search.neighbours, radius, &mut output);
                }
                i += 1;
            }
            assert(searches@.subrange(0, n as int) == searches@);
        },
        None => {},
    }
    output
}

impl FilterCondition {
    /// Gathers the documents that meet a condition on `field_id`.
    pub fn evaluate_operator(index: &FacetIndex, field_id: FieldId, operator: &Operator) -> (r:
        RoaringBitmap)
        requires
            index.wf(),
        ensures
            docids(r) == operator_docids(*index, field_id, operator@),
    {
        match operator {
            Operator::GreaterThan(val) => find_range(
                index,
                field_id,
                Bound::Excluded(*val),
                Bound::Included(Number::highest()),
            ),
            Operator::GreaterThanOrEqual(val) => find_range(
                index,
                field_id,
                Bound::Included(*val),
                Bound::Included(Number::highest()),
            ),
            Operator::NotIncludes(_, val) => find_part(index, val, false),
            Operator::Includes(_, val) => find_part(index, val, true),
            Operator::Equal(number, string) => find_equal(index, field_id, number, string),
            Operator::NotEqual(number, string) => {
                let all_numbers_ids = if number.is_some() {
                    find_faceted(&index.number_faceted, field_id)
                } else {
                    bitmap_new()
                };
                let all_strings_ids = find_faceted(&index.string_faceted, field_id);
                let equal = find_equal(index, field_id, number, string);
                bitmap_difference(&bitmap_union(&all_numbers_ids, &all_strings_ids), &equal)
            },
            Operator::LowerThan(val) => find_range(
                index,
                field_id,
                Bound::Included(Number::lowest()),
                Bound::Excluded(*val),
            ),
            Operator::LowerThanOrEqual(val) => find_range(
                index,
                field_id,
                Bound::Included(Number::lowest()),
                Bound::Included(*val),
            ),
            Operator::Between(left, right) => find_range(
                index,
                field_id,
                Bound::Included(*left),
                Bound::Included(*right),
            ),
            Operator::GeoLowerThan(base_point, distance) => find_near(index, base_point, *distance),
            Operator::GeoGreaterThan(point, distance) => {
                let result = find_near(index, point, *distance);
                bitmap_difference(&index.geo_faceted, &result)
            },
        }
    }

    /// Gathers the documents that match the filter.
    pub fn evaluate(&self, index: &FacetIndex) -> (r: RoaringBitmap)
        requires
            index.wf(),
        ensures
            docids(r) == filter_docids(*index, self@),
        decreases *self,
    {
        match self {
            FilterCondition::Operator(fid, op) => Self::evaluate_operator(index, *fid, op),
            FilterCondition::Or(lhs, rhs) => {
                let lhs = lhs.evaluate(index);
                let rhs = rhs.evaluate(index);
                bitmap_union(&lhs, &rhs)
            },
            FilterCondition::And(lhs, rhs) => {
                let lhs = lhs.evaluate(index);
                let rhs = rhs.evaluate(index);
                bitmap_intersection(&lhs, &rhs)
            },
            FilterCondition::Empty => bitmap_new(),
        }
    }
}

/// Gathers the documents whose value for `field` is the number or the string.
pub fn find_equal(index: &FacetIndex, field: FieldId, number: &Option<Number>, string: &String) -> (r:
    RoaringBitmap)
    requires
        index.wf(),
    ensures
        docids(r) == equal_docids(*index, field, *number, string@),
{
    let string_docids = find_string(index, field, string);
    let number_docids = match number {
        Some(n) => find_range(index, field, Bound::Included(*n), Bound::Included(*n)),
        None => bitmap_new(),
    };
    bitmap_union(&string_docids, &number_docids)
}

} // verus!
