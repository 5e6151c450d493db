use facet_filter::filter_condition::FilterCondition;
use facet_filter::index::{
    check_pyramid, FacetIndex, FieldDocids, GeoNeighbour, GeoSearch, NumberEntry, StringEntry,
};
use facet_filter::number::{Bound, Number};
use facet_filter::operator::Operator;
use roaring::RoaringBitmap;

fn key(value: f64) -> Number {
    Number::from_bits(value.to_bits()).unwrap()
}

fn docs(ids: &[u32]) -> RoaringBitmap {
    ids.iter().copied().collect()
}

fn entry(field: u16, level: u8, low: f64, high: f64, ids: &[u32]) -> NumberEntry {
    NumberEntry { field, level, low: key(low), high: key(high), docids: docs(ids) }
}

fn text(field: u16, value: &str, ids: &[u32]) -> StringEntry {
    StringEntry { field, value: value.to_string(), docids: docs(ids) }
}

/// Field 1 holds the values 1 to 8, the document `n` holding the value `n`,
/// and the document 9 holding both -2.5 and 8; two levels group them by two
/// and by four. Field 2 holds strings. Field 0 holds one number.
fn sample() -> FacetIndex {
    let numbers = vec![
        entry(0, 0, 4.0, 4.0, &[100]),
        entry(1, 0, -2.5, -2.5, &[9]),
        entry(1, 0, 1.0, 1.0, &[1]),
        entry(1, 0, 2.0, 2.0, &[2]),
        entry(1, 0, 3.0, 3.0, &[3]),
        entry(1, 0, 4.0, 4.0, &[4]),
        entry(1, 0, 5.0, 5.0, &[5]),
        entry(1, 0, 6.0, 6.0, &[6]),
        entry(1, 0, 7.0, 7.0, &[7]),
        entry(1, 0, 8.0, 8.0, &[8, 9]),
        entry(1, 1, -2.5, 1.0, &[1, 9]),
        entry(1, 1, 2.0, 3.0, &[2, 3]),
        entry(1, 1, 4.0, 5.0, &[4, 5]),
        entry(1, 1, 6.0, 7.0, &[6, 7]),
        entry(1, 1, 8.0, 8.0, &[8, 9]),
        entry(1, 2, -2.5, 3.0, &[1, 2, 3, 9]),
        entry(1, 2, 4.0, 7.0, &[4, 5, 6, 7]),
        entry(1, 2, 8.0, 8.0, &[8, 9]),
    ];
    let strings = vec![
        text(2, "ponce", &[1, 2]),
        text(2, "gotaga", &[3]),
        text(2, "wall street", &[4]),
        text(3, "3", &[30]),
        text(1, "3", &[31]),
    ];
    let number_faceted = vec![
        FieldDocids { field: 0, docids: docs(&[100]) },
        FieldDocids { field: 1, docids: docs(&[1, 2, 3, 4, 5, 6, 7, 8, 9]) },
    ];
    let string_faceted = vec![
        FieldDocids { field: 1, docids: docs(&[31]) },
        FieldDocids { field: 2, docids: docs(&[1, 2, 3, 4]) },
        FieldDocids { field: 3, docids: docs(&[30]) },
    ];
    let geo = vec![GeoSearch {
        center: [key(12.0), key(13.0)],
        neighbours: vec![
            GeoNeighbour { distance: key(10.0), docid: 1 },
            GeoNeighbour { distance: key(20.0), docid: 2 },
            GeoNeighbour { distance: key(30.0), docid: 3 },
        ],
    }];
    FacetIndex::new(
        numbers,
        strings,
        number_faceted,
        string_faceted,
        docs(&[1, 2, 3, 4, 5]),
        Some(geo),
    )
    .unwrap()
}

fn on(field: u16, op: Operator) -> FilterCondition {
    FilterCondition::Operator(field, op)
}

fn walk(index: &FacetIndex, level: u8, left: Bound, right: Bound) -> RoaringBitmap {
    let mut output = RoaringBitmap::new();
    FilterCondition::explore_facet_number_levels(index, 1, level, left, right, &mut output);
    output
}

#[test]
fn pyramid_must_be_in_order() {
    assert!(check_pyramid(&vec![entry(1, 0, 1.0, 1.0, &[1]), entry(1, 0, 2.0, 2.0, &[2])]));
    // Out of order.
    assert!(!check_pyramid(&vec![entry(1, 0, 2.0, 2.0, &[2]), entry(1, 0, 1.0, 1.0, &[1])]));
    // Twice the same key.
    assert!(!check_pyramid(&vec![entry(1, 0, 1.0, 1.0, &[1]), entry(1, 0, 1.0, 1.0, &[2])]));
    // A range at level 0.
    assert!(!check_pyramid(&vec![entry(1, 0, 1.0, 2.0, &[1])]));
    // An empty range.
    assert!(!check_pyramid(&vec![entry(1, 1, 2.0, 1.0, &[1])]));
    // Two entries of one level that overlap.
    assert!(!check_pyramid(&vec![entry(1, 1, 1.0, 3.0, &[1]), entry(1, 1, 2.0, 4.0, &[2])]));
    // The same ranges at two levels do not overlap.
    assert!(check_pyramid(&vec![entry(1, 1, 1.0, 3.0, &[1]), entry(1, 2, 1.0, 3.0, &[1])]));
    assert!(FacetIndex::new(
        vec![entry(2, 0, 1.0, 1.0, &[1]), entry(1, 0, 1.0, 1.0, &[1])],
        vec![],
        vec![],
        vec![],
        docs(&[]),
        None
    )
    .is_none());
}

#[test]
fn top_level_is_the_highest_of_the_field() {
    let index = sample();
    assert_eq!(index.top_level(0), Some(0));
    assert_eq!(index.top_level(1), Some(2));
    assert_eq!(index.top_level(2), None);
    assert_eq!(index.top_level(u16::MAX), None);
}

#[test]
fn descent_gives_the_same_from_every_level() {
    let index = sample();
    let intervals = [
        (Bound::Included(key(3.0)), Bound::Included(key(6.0)), vec![3, 4, 5, 6]),
        (Bound::Excluded(key(3.0)), Bound::Included(key(6.0)), vec![4, 5, 6]),
        (Bound::Included(key(3.0)), Bound::Excluded(key(6.0)), vec![3, 4, 5]),
        (Bound::Excluded(key(3.0)), Bound::Excluded(key(6.0)), vec![4, 5]),
        (Bound::Included(key(-10.0)), Bound::Included(key(100.0)), vec![1, 2, 3, 4, 5, 6, 7, 8, 9]),
        (Bound::Included(key(2.5)), Bound::Included(key(2.75)), vec![]),
        (Bound::Included(key(4.0)), Bound::Included(key(7.0)), vec![4, 5, 6, 7]),
        (Bound::Excluded(key(-2.5)), Bound::Excluded(key(8.0)), vec![1, 2, 3, 4, 5, 6, 7]),
        (Bound::Included(key(5.0)), Bound::Included(key(5.0)), vec![5]),
        (Bound::Included(key(6.0)), Bound::Included(key(3.0)), vec![]),
        (Bound::Excluded(key(3.0)), Bound::Included(key(3.0)), vec![]),
        (Bound::Included(key(3.0)), Bound::Excluded(key(3.0)), vec![]),
        (Bound::Excluded(key(3.0)), Bound::Excluded(key(3.0)), vec![]),
    ];
    for (left, right, expected) in intervals {
        for level in [0u8, 1, 2, 3, 255] {
            assert_eq!(walk(&index, level, left, right), docs(&expected), "level {}", level);
        }
    }
}

#[test]
fn descent_adds_to_what_the_output_holds() {
    let index = sample();
    let mut output = docs(&[77]);
    FilterCondition::explore_facet_number_levels(
        &index,
        1,
        2,
        Bound::Included(key(1.0)),
        Bound::Included(key(2.0)),
        &mut output,
    );
    assert_eq!(output, docs(&[1, 2, 77]));
}

#[test]
fn orders_and_intervals() {
    let index = sample();
    assert_eq!(on(1, Operator::GreaterThan(key(6.0))).evaluate(&index), docs(&[7, 8, 9]));
    assert_eq!(on(1, Operator::GreaterThanOrEqual(key(6.0))).evaluate(&index), docs(&[6, 7, 8, 9]));
    assert_eq!(on(1, Operator::LowerThan(key(2.0))).evaluate(&index), docs(&[1, 9]));
    assert_eq!(on(1, Operator::LowerThanOrEqual(key(2.0))).evaluate(&index), docs(&[1, 2, 9]));
    assert_eq!(on(1, Operator::Between(key(2.0), key(4.0))).evaluate(&index), docs(&[2, 3, 4]));
    // An interval whose lower end lies above its upper end.
    assert_eq!(on(1, Operator::Between(key(10.0), key(5.0))).evaluate(&index), docs(&[]));
    // An interval of one value.
    assert_eq!(on(1, Operator::Between(key(8.0), key(8.0))).evaluate(&index), docs(&[8, 9]));
    // Another field, and a field without numbers.
    assert_eq!(on(0, Operator::GreaterThan(key(1.0))).evaluate(&index), docs(&[100]));
    assert_eq!(on(2, Operator::GreaterThan(key(1.0))).evaluate(&index), docs(&[]));
}

#[test]
fn bounds_symmetry_on_a_numeric_field() {
    let index = sample();
    for value in [-5.0, -2.5, 0.0, 1.0, 4.0, 4.5, 8.0, 12.0] {
        let above = on(0, Operator::GreaterThan(key(value))).evaluate(&index);
        let at = on(0, Operator::Equal(Some(key(value)), value.to_string())).evaluate(&index);
        let below = on(0, Operator::LowerThan(key(value))).evaluate(&index);
        assert_eq!(above | at | below, docs(&[100]));
    }
}

#[test]
fn equalities() {
    let index = sample();
    // The number and the string are both looked up.
    assert_eq!(
        on(1, Operator::Equal(Some(key(3.0)), "3".to_string())).evaluate(&index),
        docs(&[3, 31])
    );
    assert_eq!(on(1, Operator::Equal(None, "3".to_string())).evaluate(&index), docs(&[31]));
    assert_eq!(on(2, Operator::Equal(None, "ponce".to_string())).evaluate(&index), docs(&[1, 2]));
    assert_eq!(on(2, Operator::Equal(None, "Ponce".to_string())).evaluate(&index), docs(&[]));
    // A field with no string and no number.
    assert_eq!(
        on(7, Operator::Equal(Some(key(3.0)), "3".to_string())).evaluate(&index),
        docs(&[])
    );
    // What has a value and is not equal.
    assert_eq!(
        on(1, Operator::NotEqual(Some(key(3.0)), "3".to_string())).evaluate(&index),
        docs(&[1, 2, 4, 5, 6, 7, 8, 9])
    );
    // Without a number the documents that have numbers are left out.
    assert_eq!(on(1, Operator::NotEqual(None, "x".to_string())).evaluate(&index), docs(&[31]));
    assert_eq!(
        on(2, Operator::NotEqual(None, "ponce".to_string())).evaluate(&index),
        docs(&[3, 4])
    );
}

#[test]
fn inclusions_scan_the_string_index() {
    let index = sample();
    assert_eq!(on(2, Operator::Includes(None, "wall".to_string())).evaluate(&index), docs(&[4]));
    assert_eq!(
        on(2, Operator::Includes(None, "o".to_string())).evaluate(&index),
        docs(&[1, 2, 3])
    );
    assert_eq!(
        on(2, Operator::Includes(None, "".to_string())).evaluate(&index),
        docs(&[1, 2, 3, 4, 30, 31])
    );
    assert_eq!(on(2, Operator::Includes(None, "walls".to_string())).evaluate(&index), docs(&[]));
    assert_eq!(
        on(2, Operator::NotIncludes(None, "o".to_string())).evaluate(&index),
        docs(&[4, 30, 31])
    );
    assert_eq!(on(2, Operator::NotIncludes(None, "".to_string())).evaluate(&index), docs(&[]));
}

#[test]
fn geo_radius_is_strict() {
    let index = sample();
    let point = [key(12.0), key(13.0)];
    assert_eq!(on(5, Operator::GeoLowerThan(point, key(25.0))).evaluate(&index), docs(&[1, 2]));
    assert_eq!(on(5, Operator::GeoLowerThan(point, key(20.0))).evaluate(&index), docs(&[1]));
    assert_eq!(on(5, Operator::GeoLowerThan(point, key(0.0))).evaluate(&index), docs(&[]));
    assert_eq!(on(5, Operator::GeoLowerThan(point, key(1000.0))).evaluate(&index), docs(&[1, 2, 3]));
    assert_eq!(
        on(5, Operator::GeoGreaterThan(point, key(25.0))).evaluate(&index),
        docs(&[3, 4, 5])
    );
    assert_eq!(
        on(5, Operator::GeoGreaterThan(point, key(0.0))).evaluate(&index),
        docs(&[1, 2, 3, 4, 5])
    );
    // A point that no search starts from.
    assert_eq!(
        on(5, Operator::GeoLowerThan([key(1.0), key(1.0)], key(25.0))).evaluate(&index),
        docs(&[])
    );
}

#[test]
fn neighbours_are_taken_while_they_are_near() {
    let mut index = sample();
    // A neighbour behind a farther one is not reached.
    index.geo = Some(vec![GeoSearch {
        center: [key(0.0), key(0.0)],
        neighbours: vec![
            GeoNeighbour { distance: key(1.0), docid: 1 },
            GeoNeighbour { distance: key(9.0), docid: 2 },
            GeoNeighbour { distance: key(2.0), docid: 3 },
        ],
    }]);
    let point = [key(0.0), key(0.0)];
    assert_eq!(on(5, Operator::GeoLowerThan(point, key(5.0))).evaluate(&index), docs(&[1]));
    index.geo = None;
    assert_eq!(on(5, Operator::GeoLowerThan(point, key(5.0))).evaluate(&index), docs(&[]));
    assert_eq!(
        on(5, Operator::GeoGreaterThan(point, key(5.0))).evaluate(&index),
        docs(&[1, 2, 3, 4, 5])
    );
}

#[test]
fn boolean_composition() {
    let index = sample();
    let a = || on(1, Operator::GreaterThan(key(2.0)));
    let b = || on(1, Operator::LowerThan(key(5.0)));
    let c = || on(2, Operator::Equal(None, "ponce".to_string()));
    let and = |l: FilterCondition, r: FilterCondition| FilterCondition::And(Box::new(l), Box::new(r));
    let or = |l: FilterCondition, r: FilterCondition| FilterCondition::Or(Box::new(l), Box::new(r));

    assert_eq!(and(a(), b()).evaluate(&index), docs(&[3, 4, 9]));
    assert_eq!(or(b(), c()).evaluate(&index), docs(&[1, 2, 3, 4, 9]));
    assert_eq!(FilterCondition::Empty.evaluate(&index), docs(&[]));
    // The disjunction of a filter with itself.
    assert_eq!(or(a(), a()).evaluate(&index), a().evaluate(&index));
    // Conjunction distributes over disjunction.
    assert_eq!(
        and(a(), or(b(), c())).evaluate(&index),
        or(and(a(), b()), and(a(), c())).evaluate(&index)
    );
    // `Empty` dominates a conjunction, and adds nothing to a disjunction.
    assert_eq!(and(FilterCondition::Empty, a()).evaluate(&index), docs(&[]));
    assert_eq!(and(a(), FilterCondition::Empty).evaluate(&index), docs(&[]));
    assert_eq!(or(FilterCondition::Empty, a()).evaluate(&index), a().evaluate(&index));
}

#[test]
fn double_negation_matches_the_same_documents() {
    let index = sample();
    let filters = [
        on(1, Operator::GreaterThan(key(2.0))),
        on(1, Operator::LowerThanOrEqual(key(2.0))),
        on(2, Operator::Equal(None, "ponce".to_string())),
        on(2, Operator::NotIncludes(None, "o".to_string())),
        on(5, Operator::GeoLowerThan([key(12.0), key(13.0)], key(25.0))),
        FilterCondition::And(
            Box::new(on(1, Operator::GreaterThan(key(2.0)))),
            Box::new(FilterCondition::Or(
                Box::new(FilterCondition::Empty),
                Box::new(on(2, Operator::Equal(None, "ponce".to_string()))),
            )),
        ),
    ];
    for filter in filters {
        let twice = filter.clone().negate().negate();
        assert_eq!(twice, filter);
        assert_eq!(twice.evaluate(&index), filter.evaluate(&index));
    }
    // An interval comes back as the conjunction of its two ends.
    assert_eq!(
        on(1, Operator::Between(key(2.0), key(4.0))).negate().negate(),
        FilterCondition::And(
            Box::new(on(1, Operator::GreaterThanOrEqual(key(2.0)))),
            Box::new(on(1, Operator::LowerThanOrEqual(key(4.0)))),
        )
    );
}
