use either::Either;
use facet_filter::error::{FilterError, SyntaxKind};
use facet_filter::fields::{FieldsIdsMap, NumberReadings};
use facet_filter::filter_condition::FilterCondition;
use facet_filter::number::Number;
use facet_filter::operator::Operator;
use facet_filter::resolve::literals_of;

fn num(value: f64) -> Number {
    Number::from_bits(value.to_bits()).unwrap()
}

fn read_numbers(expressions: &[&str]) -> NumberReadings {
    let mut numbers = Vec::new();
    for expression in expressions {
        for text in literals_of(expression) {
            if let Some(number) =
                text.parse::<f64>().ok().and_then(|value| Number::from_bits(value.to_bits()))
            {
                numbers.push((text, number));
            }
        }
    }
    NumberReadings { numbers }
}

fn fields_of(names: &[&str]) -> FieldsIdsMap {
    let fields = names.iter().enumerate().map(|(id, name)| (name.to_string(), id as u16)).collect();
    FieldsIdsMap { fields }
}

fn names_of(names: &[&str]) -> Vec<String> {
    names.iter().map(|name| name.to_string()).collect()
}

fn read(
    fields: &FieldsIdsMap,
    filterable: &Vec<String>,
    expression: &str,
) -> Result<FilterCondition, FilterError> {
    FilterCondition::from_str(fields, filterable, &read_numbers(&[expression]), expression)
}

#[test]
fn string() {
    // Set the filterable fields to be the channel.
    let map = fields_of(&["channel"]);
    let filterable = names_of(&["channel"]);

    // Test that the facet condition is correctly generated.
    let condition = read(&map, &filterable, "channel = Ponce").unwrap();
    let expected = FilterCondition::Operator(0, Operator::Equal(None, "ponce".to_string()));
    assert_eq!(condition, expected);

    let condition = read(&map, &filterable, "channel != ponce").unwrap();
    let expected = FilterCondition::Operator(0, Operator::NotEqual(None, "ponce".to_string()));
    assert_eq!(condition, expected);

    let condition = read(&map, &filterable, "NOT channel = ponce").unwrap();
    let expected = FilterCondition::Operator(0, Operator::NotEqual(None, "ponce".to_string()));
    assert_eq!(condition, expected);
}

#[test]
fn number() {
    // Set the filterable fields to be the timestamp.
    let map = fields_of(&["timestamp"]);
    let filterable = names_of(&["timestamp"]);

    // Test that the facet condition is correctly generated.
    let condition = read(&map, &filterable, "timestamp 22 TO 44").unwrap();
    let expected = FilterCondition::Operator(0, Operator::Between(num(22.0), num(44.0)));
    assert_eq!(condition, expected);

    let condition = read(&map, &filterable, "NOT timestamp 22 TO 44").unwrap();
    let expected = FilterCondition::Or(
        Box::new(FilterCondition::Operator(0, Operator::LowerThan(num(22.0)))),
        Box::new(FilterCondition::Operator(0, Operator::GreaterThan(num(44.0)))),
    );
    assert_eq!(condition, expected);
}

#[test]
fn parentheses() {
    let map = fields_of(&["channel", "timestamp"]);
    let filterable = names_of(&["channel", "timestamp"]);

    // Test that the facet condition is correctly generated.
    let condition = read(
        &map,
        &filterable,
        "channel = gotaga OR (timestamp 22 TO 44 AND channel != ponce)",
    )
    .unwrap();
    let expected = FilterCondition::Or(
        Box::new(FilterCondition::Operator(0, Operator::Equal(None, "gotaga".to_string()))),
        Box::new(FilterCondition::And(
            Box::new(FilterCondition::Operator(1, Operator::Between(num(22.0), num(44.0)))),
            Box::new(FilterCondition::Operator(0, Operator::NotEqual(None, "ponce".to_string()))),
        )),
    );
    assert_eq!(condition, expected);

    let condition = read(
        &map,
        &filterable,
        "channel = gotaga OR NOT (timestamp 22 TO 44 AND channel != ponce)",
    )
    .unwrap();
    let expected = FilterCondition::Or(
        Box::new(FilterCondition::Operator(0, Operator::Equal(None, "gotaga".to_string()))),
        Box::new(FilterCondition::Or(
            Box::new(FilterCondition::Or(
                Box::new(FilterCondition::Operator(1, Operator::LowerThan(num(22.0)))),
                Box::new(FilterCondition::Operator(1, Operator::GreaterThan(num(44.0)))),
            )),
            Box::new(FilterCondition::Operator(0, Operator::Equal(None, "ponce".to_string()))),
        )),
    );
    assert_eq!(condition, expected);
}

#[test]
fn reserved_field_names() {
    let map = fields_of(&[]);
    let filterable = names_of(&[]);

    assert!(read(&map, &filterable, "_geo = 12").is_err());

    assert!(read(&map, &filterable, r#"_geoDistance <= 1000"#).is_err());

    assert!(read(&map, &filterable, r#"_geoPoint > 5"#).is_err());

    assert!(read(&map, &filterable, r#"_geoPoint(12, 16) > 5"#).is_err());
}

#[test]
fn geo_radius() {
    let map = fields_of(&["_geo", "price"]);
    let filterable = names_of(&["_geo", "price"]);

    // basic test
    let condition = read(&map, &filterable, "_geoRadius(12, 13.0005, 2000)").unwrap();
    let expected =
        FilterCondition::Operator(0, Operator::GeoLowerThan([num(12.), num(13.0005)], num(2000.)));
    assert_eq!(condition, expected);

    // basic test with latitude and longitude at the max angle
    let condition = read(&map, &filterable, "_geoRadius(90, 180, 2000)").unwrap();
    let expected =
        FilterCondition::Operator(0, Operator::GeoLowerThan([num(90.), num(180.)], num(2000.)));
    assert_eq!(condition, expected);

    // basic test with latitude and longitude at the min angle
    let condition = read(&map, &filterable, "_geoRadius(-90, -180, 2000)").unwrap();
    let expected =
        FilterCondition::Operator(0, Operator::GeoLowerThan([num(-90.), num(-180.)], num(2000.)));
    assert_eq!(condition, expected);

    // test the negation of the GeoLowerThan
    let condition = read(&map, &filterable, "NOT _geoRadius(50, 18, 2000.500)").unwrap();
    let expected =
        FilterCondition::Operator(0, Operator::GeoGreaterThan([num(50.), num(18.)], num(2000.500)));
    assert_eq!(condition, expected);

    // composition of multiple operations
    let condition = read(
        &map,
        &filterable,
        "(NOT _geoRadius(1, 2, 300) AND _geoRadius(1.001, 2.002, 1000.300)) OR price <= 10",
    )
    .unwrap();
    let expected = FilterCondition::Or(
        Box::new(FilterCondition::And(
            Box::new(FilterCondition::Operator(
                0,
                Operator::GeoGreaterThan([num(1.), num(2.)], num(300.)),
            )),
            Box::new(FilterCondition::Operator(
                0,
                Operator::GeoLowerThan([num(1.001), num(2.002)], num(1000.300)),
            )),
        )),
        Box::new(FilterCondition::Operator(1, Operator::LowerThanOrEqual(num(10.)))),
    );
    assert_eq!(condition, expected);

    // georadius don't have any parameters
    let result = read(&map, &filterable, "_geoRadius");
    assert!(result.is_err());
    let error = result.unwrap_err();
    assert!(error.message().contains(
        "The _geoRadius filter expect three arguments: _geoRadius(latitude, longitude, radius)"
    ));

    // georadius don't have any parameters
    let result = read(&map, &filterable, "_geoRadius()");
    assert!(result.is_err());
    let error = result.unwrap_err();
    assert!(error.message().contains(
        "The _geoRadius filter expect three arguments: _geoRadius(latitude, longitude, radius)"
    ));

    // georadius don't have enough parameters
    let result = read(&map, &filterable, "_geoRadius(1, 2)");
    assert!(result.is_err());
    let error = result.unwrap_err();
    assert!(error.message().contains(
        "The _geoRadius filter expect three arguments: _geoRadius(latitude, longitude, radius)"
    ));

    // georadius have too many parameters
    let result = read(&map, &filterable, "_geoRadius(1, 2, 3, 4, 5, 6, 7, 8, 9, 10)");
    assert!(result.is_err());
    let error = result.unwrap_err();
    assert!(error.message().contains(
        "The _geoRadius filter expect three arguments: _geoRadius(latitude, longitude, radius)"
    ));

    // georadius have a bad latitude
    let result = read(&map, &filterable, "_geoRadius(-100, 150, 10)");
    assert!(result.is_err());
    let error = result.unwrap_err();
    assert!(error.message().contains("Latitude must be contained between -90 and 90 degrees."));

    // georadius have a bad latitude
    let result = read(&map, &filterable, "_geoRadius(-90.0000001, 150, 10)");
    assert!(result.is_err());
    let error = result.unwrap_err();
    assert!(error.message().contains("Latitude must be contained between -90 and 90 degrees."));

    // georadius have a bad longitude
    let result = read(&map, &filterable, "_geoRadius(-10, 250, 10)");
    assert!(result.is_err());
    let error = result.unwrap_err();
    assert!(error.message().contains("Longitude must be contained between -180 and 180 degrees."));

    // georadius have a bad longitude
    let result = read(&map, &filterable, "_geoRadius(-10, 180.000001, 10)");
    assert!(result.is_err());
    let error = result.unwrap_err();
    assert!(error.message().contains("Longitude must be contained between -180 and 180 degrees."));
}

#[test]
fn from_array() {
    let map = fields_of(&["channel", "timestamp"]);
    let filterable = names_of(&["channel", "timestamp"]);

    // Test that the facet condition is correctly generated.
    let numbers = read_numbers(&["channel = gotaga", "timestamp = 44", "channel != ponce"]);
    let condition = FilterCondition::from_array(
        &map,
        &filterable,
        &numbers,
        &vec![
            Either::Right("channel = gotaga".to_string()),
            Either::Left(vec!["timestamp = 44".to_string(), "channel != ponce".to_string()]),
        ],
    )
    .unwrap()
    .unwrap();
    let expected =
        read(&map, &filterable, "channel = gotaga AND (timestamp = 44 OR channel != ponce)")
            .unwrap();
    assert_eq!(condition, expected);
}

#[test]
fn reserved_keywords_are_told_apart() {
    let map = fields_of(&["_geo"]);
    let filterable = names_of(&["_geo"]);
    let hint = "Use the _geoRadius(latitude, longitude, distance) built-in rule to filter on _geo field coordinates.";

    assert_eq!(
        read(&map, &filterable, "_geo = 12").unwrap_err(),
        FilterError::ReservedKeyword { field: "_geo".to_string(), context: Some(hint.to_string()) }
    );
    assert_eq!(
        read(&map, &filterable, "_geoPoint(12, 16) > 5").unwrap_err(),
        FilterError::ReservedKeyword {
            field: "_geoPoint".to_string(),
            context: Some(hint.to_string())
        }
    );
    assert_eq!(
        read(&map, &filterable, "_geoPoint > 5").unwrap_err(),
        FilterError::ReservedKeyword {
            field: "_geoPoint".to_string(),
            context: Some(hint.to_string())
        }
    );
    assert_eq!(
        read(&map, &filterable, "_geoDistance <= 1000").unwrap_err(),
        FilterError::ReservedKeyword { field: "_geoDistance".to_string(), context: None }
    );
}

#[test]
fn geo_radius_errors_point_at_their_argument() {
    let map = fields_of(&["_geo"]);
    let filterable = names_of(&["_geo"]);

    assert_eq!(
        read(&map, &filterable, "_geoRadius(1, 2)").unwrap_err(),
        FilterError::Syntax { offset: 14, length: 1, kind: SyntaxKind::GeoRadiusArguments }
    );
    assert_eq!(
        read(&map, &filterable, "_geoRadius()").unwrap_err(),
        FilterError::Syntax { offset: 10, length: 2, kind: SyntaxKind::GeoRadiusArguments }
    );
    assert_eq!(
        read(&map, &filterable, "_geoRadius").unwrap_err(),
        FilterError::Syntax { offset: 10, length: 0, kind: SyntaxKind::GeoRadiusArguments }
    );
    assert_eq!(
        read(&map, &filterable, "_geoRadius(-100, 150, 10)").unwrap_err(),
        FilterError::Syntax { offset: 11, length: 4, kind: SyntaxKind::LatitudeOutOfRange }
    );
    assert_eq!(
        read(&map, &filterable, "_geoRadius(-10, 250, 10)").unwrap_err(),
        FilterError::Syntax { offset: 16, length: 3, kind: SyntaxKind::LongitudeOutOfRange }
    );
    assert_eq!(
        read(&map, &filterable, "_geoRadius(1, two, 3)").unwrap_err(),
        FilterError::Syntax { offset: 14, length: 3, kind: SyntaxKind::InvalidNumber }
    );
}

#[test]
fn unknown_fields_are_refused_and_unused_ones_are_empty() {
    let map = fields_of(&["channel"]);
    let filterable = names_of(&["channel", "price"]);

    assert_eq!(
        read(&map, &filterable, "title = x").unwrap_err(),
        FilterError::InvalidAttribute {
            field: "title".to_string(),
            valid_fields: vec!["channel".to_string(), "price".to_string()]
        }
    );
    // A field that may be filtered on and that no document has.
    assert_eq!(read(&map, &filterable, "price > 10").unwrap(), FilterCondition::Empty);
    assert_eq!(read(&map, &filterable, "NOT price > 10").unwrap(), FilterCondition::Empty);
    assert_eq!(
        read(&map, &filterable, "price > 10 AND channel = a").unwrap(),
        FilterCondition::And(
            Box::new(FilterCondition::Empty),
            Box::new(FilterCondition::Operator(0, Operator::Equal(None, "a".to_string())))
        )
    );
    // Without `_geo` among the fields that may be filtered on.
    assert_eq!(
        read(&map, &filterable, "_geoRadius(1, 2, 3)").unwrap_err(),
        FilterError::InvalidAttribute {
            field: "_geo".to_string(),
            valid_fields: vec!["channel".to_string(), "price".to_string()]
        }
    );
}

#[test]
fn values_read_as_numbers_and_strings() {
    let map = fields_of(&["price", "title"]);
    let filterable = names_of(&["price", "title"]);

    assert_eq!(
        read(&map, &filterable, "price = 12.5").unwrap(),
        FilterCondition::Operator(0, Operator::Equal(Some(num(12.5)), "12.5".to_string()))
    );
    assert_eq!(
        read(&map, &filterable, "title * 'The WALL'").unwrap(),
        FilterCondition::Operator(1, Operator::Includes(None, "the wall".to_string()))
    );
    assert_eq!(
        read(&map, &filterable, "title !* \"Wall\"").unwrap(),
        FilterCondition::Operator(1, Operator::NotIncludes(None, "wall".to_string()))
    );
    assert_eq!(
        read(&map, &filterable, "price>=3").unwrap(),
        FilterCondition::Operator(0, Operator::GreaterThanOrEqual(num(3.0)))
    );
    assert_eq!(
        read(&map, &filterable, "price < -3").unwrap(),
        FilterCondition::Operator(0, Operator::LowerThan(num(-3.0)))
    );
    // An order takes a number.
    assert_eq!(
        read(&map, &filterable, "price > cheap").unwrap_err(),
        FilterError::Syntax { offset: 8, length: 5, kind: SyntaxKind::InvalidNumber }
    );
    // Of the two ends of an interval the left one is reported first.
    assert_eq!(
        read(&map, &filterable, "price low TO high").unwrap_err(),
        FilterError::Syntax { offset: 6, length: 3, kind: SyntaxKind::InvalidNumber }
    );
}

#[test]
fn precedence_and_association() {
    let map = fields_of(&["a", "b", "c"]);
    let filterable = names_of(&["a", "b", "c"]);
    let is = |fid: u16, text: &str| {
        Box::new(FilterCondition::Operator(fid, Operator::Equal(None, text.to_string())))
    };

    // AND binds tighter than OR.
    assert_eq!(
        read(&map, &filterable, "a = x OR b = y AND c = z").unwrap(),
        FilterCondition::Or(is(0, "x"), Box::new(FilterCondition::And(is(1, "y"), is(2, "z"))))
    );
    assert_eq!(
        read(&map, &filterable, "a = x AND b = y OR c = z").unwrap(),
        FilterCondition::Or(Box::new(FilterCondition::And(is(0, "x"), is(1, "y"))), is(2, "z"))
    );
    // Both join to the left.
    assert_eq!(
        read(&map, &filterable, "a = x OR b = y OR c = z").unwrap(),
        FilterCondition::Or(Box::new(FilterCondition::Or(is(0, "x"), is(1, "y"))), is(2, "z"))
    );
    // NOT binds tighter than AND.
    assert_eq!(
        read(&map, &filterable, "NOT a = x AND b = y").unwrap(),
        FilterCondition::And(
            Box::new(FilterCondition::Operator(0, Operator::NotEqual(None, "x".to_string()))),
            is(1, "y")
        )
    );
}

#[test]
fn syntax_errors_give_their_place_in_bytes() {
    let map = fields_of(&["a"]);
    let filterable = names_of(&["a"]);

    assert_eq!(
        read(&map, &filterable, "a = ").unwrap_err(),
        FilterError::Syntax { offset: 4, length: 0, kind: SyntaxKind::ExpectedValue }
    );
    assert_eq!(
        read(&map, &filterable, "(a = x").unwrap_err(),
        FilterError::Syntax { offset: 6, length: 0, kind: SyntaxKind::ExpectedClosingParenthesis }
    );
    assert_eq!(
        read(&map, &filterable, "a = x b").unwrap_err(),
        FilterError::Syntax { offset: 6, length: 1, kind: SyntaxKind::ExpectedEndOfInput }
    );
    assert_eq!(
        read(&map, &filterable, "a = 'x").unwrap_err(),
        FilterError::Syntax { offset: 4, length: 1, kind: SyntaxKind::UnterminatedString }
    );
    assert_eq!(
        read(&map, &filterable, "a ! x").unwrap_err(),
        FilterError::Syntax { offset: 2, length: 1, kind: SyntaxKind::UnexpectedCharacter }
    );
    assert_eq!(
        read(&map, &filterable, "").unwrap_err(),
        FilterError::Syntax { offset: 0, length: 0, kind: SyntaxKind::ExpectedCondition }
    );
    assert_eq!(
        read(&map, &filterable, "a 1 TO").unwrap_err(),
        FilterError::Syntax { offset: 6, length: 0, kind: SyntaxKind::ExpectedValue }
    );
    // The place counts bytes: `é` takes two.
    assert_eq!(
        read(&map, &filterable, "a = é b").unwrap_err(),
        FilterError::Syntax { offset: 7, length: 1, kind: SyntaxKind::ExpectedEndOfInput }
    );
}

#[test]
fn array_form_joins_groups_and_rules() {
    let map = fields_of(&["a", "b"]);
    let filterable = names_of(&["a", "b"]);
    let numbers = NumberReadings { numbers: Vec::new() };
    let is = |fid: u16, text: &str| {
        Box::new(FilterCondition::Operator(fid, Operator::Equal(None, text.to_string())))
    };

    // An array without rules is no filter.
    assert_eq!(FilterCondition::from_array(&map, &filterable, &numbers, &vec![]).unwrap(), None);
    assert_eq!(
        FilterCondition::from_array(&map, &filterable, &numbers, &vec![Either::Left(vec![])])
            .unwrap(),
        None
    );
    // A single rule stands alone.
    assert_eq!(
        FilterCondition::from_array(
            &map,
            &filterable,
            &numbers,
            &vec![Either::Left(vec!["a = x".to_string()])]
        )
        .unwrap(),
        Some(*is(0, "x"))
    );
    assert_eq!(
        FilterCondition::from_array(
            &map,
            &filterable,
            &numbers,
            &vec![
                Either::Left(vec!["a = x".to_string(), "b = y".to_string()]),
                Either::Left(vec![]),
                Either::Right("a = z".to_string()),
            ]
        )
        .unwrap(),
        Some(FilterCondition::And(
            Box::new(FilterCondition::Or(is(0, "x"), is(1, "y"))),
            is(0, "z")
        ))
    );
    // The first error is given.
    assert!(matches!(
        FilterCondition::from_array(
            &map,
            &filterable,
            &numbers,
            &vec![Either::Right("a = x".to_string()), Either::Right("c = z".to_string())]
        ),
        Err(FilterError::InvalidAttribute { .. })
    ));
}

#[test]
fn errors_say_what_is_wrong() {
    let map = fields_of(&["channel"]);
    let filterable = names_of(&["channel", "price"]);

    assert_eq!(
        read(&map, &filterable, "title = x").unwrap_err().message(),
        "Attribute `title` is not filterable. Available filterable attributes are: `channel, price`."
    );
    assert_eq!(
        read(&map, &names_of(&[]), "title = x").unwrap_err().message(),
        "Attribute `title` is not filterable. Available filterable attributes are: ``."
    );
    assert_eq!(
        read(&map, &filterable, "_geo = 12").unwrap_err().message(),
        "`_geo` is a reserved keyword and thus can't be used as a filter expression. Use the _geoRadius(latitude, longitude, distance) built-in rule to filter on _geo field coordinates."
    );
    assert_eq!(
        read(&map, &filterable, "_geoDistance = 12").unwrap_err().message(),
        "`_geoDistance` is a reserved keyword and thus can't be used as a filter expression."
    );
    assert_eq!(
        read(&map, &filterable, "channel > x").unwrap_err().message(),
        "invalid float literal"
    );
    assert_eq!(read(&map, &filterable, "channel =").unwrap_err().message(), "expected a value");
    assert_eq!(read(&map, &filterable, "AND").unwrap_err().message(), "expected a condition");
    assert_eq!(
        read(&map, &filterable, "(channel = x").unwrap_err().message(),
        "expected a closing parenthesis"
    );
    assert_eq!(
        read(&map, &filterable, "channel = x )").unwrap_err().message(),
        "expected the end of the filter"
    );
    assert_eq!(read(&map, &filterable, "channel = 'x").unwrap_err().message(), "unterminated string");
    assert_eq!(read(&map, &filterable, "channel ! x").unwrap_err().message(), "unexpected character");
}
