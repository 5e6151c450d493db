//! From the syntax tree of a filter to the filter: field names become
//! identifiers, and values become numbers and strings.

use crate::condition::Condition;
use crate::error::{geo_hint, syntax_error, syntax_error_at, ErrorView, FilterError, SyntaxKind};
use crate::fields::{
    contains_name, copy_names, is_listed, lookup, names_of, FieldsIdsMap, NumberReadings,
};
use crate::filter_condition::{FilterCondition, FilterView};
use crate::index::FieldId;
use crate::lexer::{chars_of, span_is};
use crate::number::{
    Number, LATITUDE_MAX_KEY, LATITUDE_MIN_KEY, LONGITUDE_MAX_KEY, LONGITUDE_MIN_KEY,
};
use crate::operator::{Operator, OperatorView};
use crate::parser::{parse, parsed};
use crate::text::{lowercase, to_lowercase};
use crate::token::{text_of, Token};
use crate::tree::{literals_in, FilterTree, TreeView};
use vstd::prelude::*;
use vstd::string::StringExecFns;

verus! {

/// Whether a text starts with the word `_geoPoint`.
pub open spec fn starts_as_geo_point(name: Seq<char>) -> bool {
    name.len() >= 9 && name.subrange(0, 9) == "_geoPoint"@
}

/// The identifier of the field that the token `key` names.
///
/// A reserved keyword is an error, and so is a field that may not be filtered
/// on. A field that may be filtered on and that no document has gives `None`.
pub open spec fn resolved(
    fields: Seq<(String, FieldId)>,
    filterable: Seq<String>,
    source: Seq<char>,
    key: Token,
) -> Result<Option<FieldId>, ErrorView> {
    let name = text_of(source, key);
    if starts_as_geo_point(name) {
        Err(ErrorView::ReservedKeyword { field: "_geoPoint"@, context: Some(geo_hint()) })
    } else if name == "_geo"@ {
        Err(ErrorView::ReservedKeyword { field: "_geo"@, context: Some(geo_hint()) })
    } else if name == "_geoDistance"@ {
        Err(ErrorView::ReservedKeyword { field: name, context: None })
    } else if !is_listed(filterable, name) {
        Err(ErrorView::InvalidAttribute { field: name, valid_fields: names_of(filterable) })
    } else {
        Ok(lookup(fields, name))
    }
}

/// The number that the token `value` reads as, or the error that it is no
/// number.
pub open spec fn number_at(numbers: Seq<(String, Number)>, source: Seq<char>, value: Token) -> Result<
    Number,
    ErrorView,
> {
    match lookup(numbers, text_of(source, value)) {
        Some(number) => Ok(number),
        None => Err(syntax_error_at(source, value, SyntaxKind::InvalidNumber)),
    }
}

/// The condition that a written condition stands for.
///
/// An order and an interval take numbers. An equality and an inclusion take
/// the text in lower case, and with it the number that the text reads as,
/// where it reads as one.
pub open spec fn operator_of(numbers: Seq<(String, Number)>, source: Seq<char>, op: Condition) -> Result<
    OperatorView,
    ErrorView,
> {
    match op {
        Condition::GreaterThan(v) => match number_at(numbers, source, v) {
            Ok(n) => Ok(OperatorView::GreaterThan(n)),
            Err(e) => Err(e),
        },
        Condition::GreaterThanOrEqual(v) => match number_at(numbers, source, v) {
            Ok(n) => Ok(OperatorView::GreaterThanOrEqual(n)),
            Err(e) => Err(e),
        },
        Condition::LowerThan(v) => match number_at(numbers, source, v) {
            Ok(n) => Ok(OperatorView::LowerThan(n)),
            Err(e) => Err(e),
        },
        Condition::LowerThanOrEqual(v) => match number_at(numbers, source, v) {
            Ok(n) => Ok(OperatorView::LowerThanOrEqual(n)),
            Err(e) => Err(e),
        },
        Condition::Between { from, to } => match number_at(numbers, source, from) {
            Ok(low) => match number_at(numbers, source, to) {
                Ok(high) => Ok(OperatorView::Between(low, high)),
                Err(e) => Err(e),
            },
            Err(e) => Err(e),
        },
        Condition::Equal(v) => Ok(
            OperatorView::Equal(
                lookup(numbers, text_of(source, v)),
                lowercase(text_of(source, v)),
            ),
        ),
        Condition::NotEqual(v) => Ok(
            OperatorView::NotEqual(
                lookup(numbers, text_of(source, v)),
                lowercase(text_of(source, v)),
            ),
        ),
        Condition::Includes(v) => Ok(
            OperatorView::Includes(
                lookup(numbers, text_of(source, v)),
                lowercase(text_of(source, v)),
            ),
        ),
        Condition::NotIncludes(v) => Ok(
            OperatorView::NotIncludes(
                lookup(numbers, text_of(source, v)),
                lowercase(text_of(source, v)),
            ),
        ),
    }
}

/// The filter of one written condition: the error of its field, `Empty` for a
/// field that no document has, and else the condition on the field.
pub open spec fn built_condition(
    fields: Seq<(String, FieldId)>,
    filterable: Seq<String>,
    numbers: Seq<(String, Number)>,
    source: Seq<char>,
    fid: Token,
    op: Condition,
) -> Result<FilterView, ErrorView> {
    match resolved(fields, filterable, source, fid) {
        Ok(Some(field)) => match operator_of(numbers, source, op) {
            Ok(operator) => Ok(FilterView::Operator(field, operator)),
            Err(e) => Err(e),
        },
        Ok(None) => Ok(FilterView::Empty),
        Err(e) => Err(e),
    }
}

/// The place of the first token from `from` on that reads as no number.
pub open spec fn first_unread(
    numbers: Seq<(String, Number)>,
    source: Seq<char>,
    tokens: Seq<Token>,
    from: int,
) -> Option<int>
    decreases tokens.len() - from,
{
    if from < 0 || from >= tokens.len() {
        None
    } else if lookup(numbers, text_of(source, tokens[from])) is None {
        Some(from)
    } else {
        first_unread(numbers, source, tokens, from + 1)
    }
}

/// The first four of the parameters: no more of them are read.
pub open spec fn leading(parameters: Seq<Token>) -> Seq<Token> {
    if parameters.len() > 4 {
        parameters.subrange(0, 4)
    } else {
        parameters
    }
}

/// The filter of `_geoRadius` with its parameters.
///
/// The field `_geo` must be one that may be filtered on, and gives `Empty`
/// where no document has it. The first four parameters must read as numbers.
/// There must be three parameters: latitude, longitude and radius, the
/// latitude from -90 to 90 and the longitude from -180 to 180, ends included.
pub open spec fn built_geo_radius(
    fields: Seq<(String, FieldId)>,
    filterable: Seq<String>,
    numbers: Seq<(String, Number)>,
    source: Seq<char>,
    span: Token,
    parameters: Seq<Token>,
) -> Result<FilterView, ErrorView> {
    if !is_listed(filterable, "_geo"@) {
        Err(ErrorView::InvalidAttribute { field: "_geo"@, valid_fields: names_of(filterable) })
    } else {
        match lookup(fields, "_geo"@) {
            None => Ok(FilterView::Empty),
            Some(field) => match first_unread(numbers, source, leading(parameters), 0) {
                Some(k) => Err(
                    syntax_error_at(source, leading(parameters)[k], SyntaxKind::InvalidNumber),
                ),
                None => if parameters.len() != 3 {
                    Err(
                        syntax_error_at(
                            source,
                            if parameters.len() > 0 {
                                parameters.last()
                            } else {
                                span
                            },
                            SyntaxKind::GeoRadiusArguments,
                        ),
                    )
                } else {
                    let lat = lookup(numbers, text_of(source, parameters[0])).unwrap();
                    let lng = lookup(numbers, text_of(source, parameters[1])).unwrap();
                    let radius = lookup(numbers, text_of(source, parameters[2])).unwrap();
                    if !(LATITUDE_MIN_KEY <= lat.key <= LATITUDE_MAX_KEY) {
                        Err(syntax_error_at(source, parameters[0], SyntaxKind::LatitudeOutOfRange))
                    } else if !(LONGITUDE_MIN_KEY <= lng.key <= LONGITUDE_MAX_KEY) {
                        Err(syntax_error_at(source, parameters[1], SyntaxKind::LongitudeOutOfRange))
                    } else {
                        Ok(FilterView::Operator(field, OperatorView::GeoLowerThan(lat, lng, radius)))
                    }
                },
            },
        }
    }
}

/// The filter of a syntax tree: each written condition by its filter, `NOT`
/// by the negation of what it stands before, and of two sides the error of the
/// left one first.
pub open spec fn built(
    fields: Seq<(String, FieldId)>,
    filterable: Seq<String>,
    numbers: Seq<(String, Number)>,
    source: Seq<char>,
    tree: TreeView,
) -> Result<FilterView, ErrorView>
    decreases tree,
{
    match tree {
        TreeView::Condition { fid, op } => built_condition(
            fields,
            filterable,
            numbers,
            source,
            fid,
            op,
        ),
        TreeView::GeoRadius { span, parameters } => built_geo_radius(
            fields,
            filterable,
            numbers,
            source,
            span,
            parameters,
        ),
        TreeView::Not(inner) => match built(fields, filterable, numbers, source, *inner) {
            Ok(filter) => Ok(filter.negated()),
            Err(e) => Err(e),
        },
        TreeView::Or(lhs, rhs) => match built(fields, filterable, numbers, source, *lhs) {
            Ok(left) => match built(fields, filterable, numbers, source, *rhs) {
                Ok(right) => Ok(FilterView::Or(Box::new(left), Box::new(right))),
                Err(e) => Err(e),
            },
            Err(e) => Err(e),
        },
        TreeView::And(lhs, rhs) => match built(fields, filterable, numbers, source, *lhs) {
            Ok(left) => match built(fields, filterable, numbers, source, *rhs) {
                Ok(right) => Ok(FilterView::And(Box::new(left), Box::new(right))),
                Err(e) => Err(e),
            },
            Err(e) => Err(e),
        },
    }
}

/// The filter that a text stands for: the filter of its syntax tree, or its
/// first syntax error.
pub open spec fn filter_of(
    fields: Seq<(String, FieldId)>,
    filterable: Seq<String>,
    numbers: Seq<(String, Number)>,
    expression: Seq<char>,
) -> Result<FilterView, ErrorView> {
    match parsed(expression) {
        Ok(tree) => built(fields, filterable, numbers, expression, tree),
        Err(fault) => Err(syntax_error_at(expression, fault.at, fault.kind)),
    }
}

/// What was made of a filter, by its views.
pub open spec fn outcome(r: Result<FilterCondition, FilterError>) -> Result<FilterView, ErrorView> {
    match r {
        Ok(filter) => Ok(filter@),
        Err(e) => Err(e@),
    }
}

/// Retrieves the identifier of the field that the token `key` names.
///
/// Returns an error if the field is a reserved keyword or may not be filtered
/// on, and `Ok(None)` if it may be filtered on and no document has it.
pub fn field_id(
    fields_ids_map: &FieldsIdsMap,
    filterable_fields: &Vec<String>,
    source: &str,
    key: Token,
) -> (r: Result<Option<FieldId>, FilterError>)
    ensures
        match r {
            Ok(id) => resolved(fields_ids_map.fields@, filterable_fields@, source@, key) == Ok::<
                _,
                ErrorView,
            >(id),
            Err(e) => resolved(fields_ids_map.fields@, filterable_fields@, source@, key) == Err::<
                Option<FieldId>,
                _,
            >(e@),
        },
{
    let name = key.fragment(source);
    let chars = chars_of(name.as_str());
    proof {
        reveal_strlit("_geoPoint");
    }
    if chars.len() >= 9 && span_is(&chars, 0, 9, "_geoPoint") {
        return Err(
            FilterError::ReservedKeyword {
                field: String::from_str("_geoPoint"),
                context: Some(
                    String::from_str(
                        "Use the _geoRadius(latitude, longitude, distance) built-in rule to filter on _geo field coordinates.",
                    ),
                ),
            },
        );
    }
    assert(chars@.subrange(0, chars.len() as int) == chars@);
    if span_is(&chars, 0, chars.len(), "_geo") {
        return Err(
            FilterError::ReservedKeyword {
                field: String::from_str("_geo"),
                context: Some(
                    String::from_str(
                        "Use the _geoRadius(latitude, longitude, distance) built-in rule to filter on _geo field coordinates.",
                    ),
                ),
            },
        );
    }
    if span_is(&chars, 0, chars.len(), "_geoDistance") {
        return Err(FilterError::ReservedKeyword { field: name, context: None });
    }
    if !contains_name(filterable_fields, name.as_str()) {
        return Err(
            FilterError::InvalidAttribute { field: name, valid_fields: copy_names(filterable_fields) },
        );
    }
    Ok(fields_ids_map.id(name.as_str()))
}

/// Reads the token `pair` as a number, and always gives the text of the
/// token.
///
/// Returns the syntax error about the token if it reads as no number.
pub fn parse_number(numbers: &NumberReadings, source: &str, pair: Token) -> (r: (
    Result<Number, FilterError>,
    String,
))
    ensures
        r.1@ == text_of(source@, pair),
        match r.0 {
            Ok(n) => number_at(numbers.numbers@, source@, pair) == Ok::<_, ErrorView>(n),
            Err(e) => number_at(numbers.numbers@, source@, pair) == Err::<Number, _>(e@),
        },
        r.0.ok() == lookup(numbers.numbers@, text_of(source@, pair)),
{
    let text = pair.fragment(source);
    let result = match numbers.number(text.as_str()) {
        Some(value) => Ok(value),
        None => Err(syntax_error(source, pair, SyntaxKind::InvalidNumber)),
    };
    (result, text)
}

impl FilterCondition {
    /// Makes the filter of `_geoRadius` with its parameters.
    #[verifier::loop_isolation(false)]
    pub fn geo_radius(
        fields_ids_map: &FieldsIdsMap,
        filterable_fields: &Vec<String>,
        numbers: &NumberReadings,
        source: &str,
        span: Token,
        parameters: &Vec<Token>,
    ) -> (r: Result<FilterCondition, FilterError>)
        ensures
            outcome(r) == built_geo_radius(
                fields_ids_map.fields@,
                filterable_fields@,
                numbers.numbers@,
                source@,
                span,
                parameters@,
            ),
    {
        if !contains_name(filterable_fields, "_geo") {
            return Err(
                FilterError::InvalidAttribute {
                    field: String::from_str("_geo"),
                    valid_fields: copy_names(filterable_fields),
                },
            );
        }
        let fid = match fields_ids_map.id("_geo") {
            Some(fid) => fid,
            None => {
                return Ok(FilterCondition::Empty);
            },
        };
        // No more than three parameters are needed, but to tell the errors apart
        // the first four are read.
        let count: usize = if parameters.len() > 4 {
            4
        } else {
            parameters.len()
        };
        let ghost read = leading(parameters@);
        let mut values: Vec<Number> = Vec::new();
        let mut k: usize = 0;
        while k < count
            invariant
                0 <= k <= count,
                count == read.len(),
                read == leading(parameters@),
                values.len() == k,
                first_unread(numbers.numbers@, source@, read, 0) == first_unread(
                    numbers.numbers@,
                    source@,
                    read,
                    k as int,
                ),
                forall|j: int|
                    0 <= j < k ==> lookup(numbers.numbers@, text_of(source@, read[j])) == Some(
                        #[trigger] values[j],
                    ),
            decreases count - k,
        {
            match parse_number(numbers, source, parameters[k]).0 {
                Ok(value) => {
                    values.push(value);
                },
                Err(e) => {
                    return Err(e);
                },
            }
            k += 1;
        }
        if parameters.len() != 3 {
            // The error is about the last parameter, or about the parentheses
            // where there is none.
            let at = if parameters.len() > 0 {
                parameters[parameters.len() - 1]
            } else {
                span
            };
            return Err(syntax_error(source, at, SyntaxKind::GeoRadiusArguments));
        }
        let lat = values[0];
        let lng = values[1];
        let distance = values[2];
        if !(LATITUDE_MIN_KEY <= lat.key && lat.key <= LATITUDE_MAX_KEY) {
            return Err(syntax_error(source, parameters[0], SyntaxKind::LatitudeOutOfRange));
        } else if !(LONGITUDE_MIN_KEY <= lng.key && lng.key <= LONGITUDE_MAX_KEY) {
            return Err(syntax_error(source, parameters[1], SyntaxKind::LongitudeOutOfRange));
        }
        Ok(FilterCondition::Operator(fid, Operator::GeoLowerThan([lat, lng], distance)))
    }

    /// Makes the filter of an interval: the field, and the two numbers that it
    /// lies between.
    pub fn between(
        fields_ids_map: &FieldsIdsMap,
        filterable_fields: &Vec<String>,
        numbers: &NumberReadings,
        source: &str,
        key: Token,
        from: Token,
        to: Token,
    ) -> (r: Result<FilterCondition, FilterError>)
        ensures
            outcome(r) == built_condition(
                fields_ids_map.fields@,
                filterable_fields@,
                numbers.numbers@,
                source@,
                key,
                Condition::Between { from, to },
            ),
    {
        let fid = match field_id(fields_ids_map, filterable_fields, source, key) {
            Ok(Some(fid)) => fid,
            Ok(None) => {
                return Ok(FilterCondition::Empty);
            },
            Err(e) => {
                return Err(e);
            },
        };
        let (lresult, _) = parse_number(numbers, source, from);
        let (rresult, _) = parse_number(numbers, source, to);
        let lvalue = match lresult {
            Ok(value) => value,
            Err(e) => {
                return Err(e);
            },
        };
        let rvalue = match rresult {
            Ok(value) => value,
            Err(e) => {
                return Err(e);
            },
        };
        Ok(FilterCondition::Operator(fid, Operator::Between(lvalue, rvalue)))
    }

    /// Makes the filter of an equality: the field, the value in lower case,
    /// and the number that the value reads as, where it reads as one.
    pub fn equal(
        fields_ids_map: &FieldsIdsMap,
        filterable_fields: &Vec<String>,
        numbers: &NumberReadings,
        source: &str,
        key: Token,
        value: Token,
    ) -> (r: Result<FilterCondition, FilterError>)
        ensures
            outcome(r) == built_condition(
                fields_ids_map.fields@,
                filterable_fields@,
                numbers.numbers@,
                source@,
                key,
                Condition::Equal(value),
            ),
    {
        let fid = match field_id(fields_ids_map, filterable_fields, source, key) {
            Ok(Some(fid)) => fid,
            Ok(None) => {
                return Ok(FilterCondition::Empty);
            },
            Err(e) => {
                return Err(e);
            },
        };
        let (result, svalue) = parse_number(numbers, source, value);
        let svalue = to_lowercase(svalue.as_str());
        Ok(FilterCondition::Operator(fid, Operator::Equal(result.ok(), svalue)))
    }

    /// Makes the filter of an inclusion: the field, the part in lower case,
    /// and the number that the part reads as, where it reads as one.
    pub fn incl(
        fields_ids_map: &FieldsIdsMap,
        filterable_fields: &Vec<String>,
        numbers: &NumberReadings,
        source: &str,
        key: Token,
        value: Token,
    ) -> (r: Result<FilterCondition, FilterError>)
        ensures
            outcome(r) == built_condition(
                fields_ids_map.fields@,
                filterable_fields@,
                numbers.numbers@,
                source@,
                key,
                Condition::Includes(value),
            ),
    {
        let fid = match field_id(fields_ids_map, filterable_fields, source, key) {
            Ok(Some(fid)) => fid,
            Ok(None) => {
                return Ok(FilterCondition::Empty);
            },
            Err(e) => {
                return Err(e);
            },
        };
        let (result, svalue) = parse_number(numbers, source, value);
        let svalue = to_lowercase(svalue.as_str());
        Ok(FilterCondition::Operator(fid, Operator::Includes(result.ok(), svalue)))
    }

    /// Makes the filter of `>`: the field, and the number that its values lie
    /// above.
    pub fn greater_than(
        fields_ids_map: &FieldsIdsMap,
        filterable_fields: &Vec<String>,
        numbers: &NumberReadings,
        source: &str,
        key: Token,
        value: Token,
    ) -> (r: Result<FilterCondition, FilterError>)
        ensures
            outcome(r) == built_condition(
                fields_ids_map.fields@,
                filterable_fields@,
                numbers.numbers@,
                source@,
                key,
                Condition::GreaterThan(value),
            ),
    {
        let fid = match field_id(fields_ids_map, filterable_fields, source, key) {
            Ok(Some(fid)) => fid,
            Ok(None) => {
                return Ok(FilterCondition::Empty);
            },
            Err(e) => {
                return Err(e);
            },
        };
        match parse_number(numbers, source, value).0 {
            Ok(value) => Ok(FilterCondition::Operator(fid, Operator::GreaterThan(value))),
            Err(e) => Err(e),
        }
    }

    /// Makes the filter of `>=`: the field, and the number that its values do
    /// not lie below.
    pub fn greater_than_or_equal(
        fields_ids_map: &FieldsIdsMap,
        filterable_fields: &Vec<String>,
        numbers: &NumberReadings,
        source: &str,
        key: Token,
        value: Token,
    ) -> (r: Result<FilterCondition, FilterError>)
        ensures
            outcome(r) == built_condition(
                fields_ids_map.fields@,
                filterable_fields@,
                numbers.numbers@,
                source@,
                key,
                Condition::GreaterThanOrEqual(value),
            ),
    {
        let fid = match field_id(fields_ids_map, filterable_fields, source, key) {
            Ok(Some(fid)) => fid,
            Ok(None) => {
                return Ok(FilterCondition::Empty);
            },
            Err(e) => {
                return Err(e);
            },
        };
        match parse_number(numbers, source, value).0 {
            Ok(value) => Ok(FilterCondition::Operator(fid, Operator::GreaterThanOrEqual(value))),
            Err(e) => Err(e),
        }
    }

    /// Makes the filter of `<`: the field, and the number that its values lie
    /// below.
    pub fn lower_than(
        fields_ids_map: &FieldsIdsMap,
        filterable_fields: &Vec<String>,
        numbers: &NumberReadings,
        source: &str,
        key: Token,
        value: Token,
    ) -> (r: Result<FilterCondition, FilterError>)
        ensures
            outcome(r) == built_condition(
                fields_ids_map.fields@,
                filterable_fields@,
                numbers.numbers@,
                source@,
                key,
                Condition::LowerThan(value),
            ),
    {
        let fid = match field_id(fields_ids_map, filterable_fields, source, key) {
            Ok(Some(fid)) => fid,
            Ok(None) => {
                return Ok(FilterCondition::Empty);
            },
            Err(e) => {
                return Err(e);
            },
        };
        match parse_number(numbers, source, value).0 {
            Ok(value) => Ok(FilterCondition::Operator(fid, Operator::LowerThan(value))),
            Err(e) => Err(e),
        }
    }

    /// Makes the filter of `<=`: the field, and the number that its values do
    /// not lie above.
    pub fn lower_than_or_equal(
        fields_ids_map: &FieldsIdsMap,
        filterable_fields: &Vec<String>,
        numbers: &NumberReadings,
        source: &str,
        key: Token,
        value: Token,
    ) -> (r: Result<FilterCondition, FilterError>)
        ensures
            outcome(r) == built_condition(
                fields_ids_map.fields@,
                filterable_fields@,
                numbers.numbers@,
                source@,
                key,
                Condition::LowerThanOrEqual(value),
            ),
    {
        let fid = match field_id(fields_ids_map, filterable_fields, source, key) {
            Ok(Some(fid)) => fid,
            Ok(None) => {
                return Ok(FilterCondition::Empty);
            },
            Err(e) => {
                return Err(e);
            },
        };
        match parse_number(numbers, source, value).0 {
            Ok(value) => Ok(FilterCondition::Operator(fid, Operator::LowerThanOrEqual(value))),
            Err(e) => Err(e),
        }
    }

    /// Makes the filter of a syntax tree of the text `source`, with the numbers
    /// that its values read as.
    pub fn from_tree(
        fields_ids_map: &FieldsIdsMap,
        filterable_fields: &Vec<String>,
        numbers: &NumberReadings,
        source: &str,
        expression: &FilterTree,
    ) -> (r: Result<FilterCondition, FilterError>)
        ensures
            outcome(r) == built(
                fields_ids_map.fields@,
                filterable_fields@,
                numbers.numbers@,
                source@,
                expression@,
            ),
        decreases *expression,
    {
        let fim = fields_ids_map;
        let ff = filterable_fields;
        match expression {
            FilterTree::Condition { fid, op } => match op {
                Condition::GreaterThan(value) => Self::greater_than(
                    fim,
                    ff,
                    numbers,
                    source,
                    *fid,
                    *value,
                ),
                Condition::GreaterThanOrEqual(value) => Self::greater_than_or_equal(
                    fim,
                    ff,
                    numbers,
                    source,
                    *fid,
                    *value,
                ),
                Condition::Equal(value) => Self::equal(fim, ff, numbers, source, *fid, *value),
                Condition::NotEqual(value) => {
                    match Self::equal(fim, ff, numbers, source, *fid, *value) {
                        Ok(filter) => Ok(filter.negate()),
                        Err(e) => Err(e),
                    }
                },
                Condition::Includes(value) => Self::incl(fim, ff, numbers, source, *fid, *value),
                Condition::NotIncludes(value) => {
                    match Self::incl(fim, ff, numbers, source, *fid, *value) {
                        Ok(filter) => Ok(filter.negate()),
                        Err(e) => Err(e),
                    }
                },
                Condition::LowerThanOrEqual(value) => Self::lower_than_or_equal(
                    fim,
                    ff,
                    numbers,
                    source,
                    *fid,
                    *value,
                ),
                Condition::LowerThan(value) => Self::lower_than(
                    fim,
                    ff,
                    numbers,
                    source,
                    *fid,
                    *value,
                ),
                Condition::Between { from, to } => Self::between(
                    fim,
                    ff,
                    numbers,
                    source,
                    *fid,
                    *from,
                    *to,
                ),
            },
            FilterTree::GeoRadius { span, parameters } => Self::geo_radius(
                fim,
                ff,
                numbers,
                source,
                *span,
                parameters,
            ),
            FilterTree::Not(inner) => match Self::from_tree(fim, ff, numbers, source, inner) {
                Ok(filter) => Ok(filter.negate()),
                Err(e) => Err(e),
            },
            FilterTree::Or(lhs, rhs) => {
                let lhs = Self::from_tree(fim, ff, numbers, source, lhs);
                let rhs = Self::from_tree(fim, ff, numbers, source, rhs);
                match lhs {
                    Ok(lhs) => match rhs {
                        Ok(rhs) => Ok(FilterCondition::Or(Box::new(lhs), Box::new(rhs))),
                        Err(e) => Err(e),
                    },
                    Err(e) => Err(e),
                }
            },
            FilterTree::And(lhs, rhs) => {
                let lhs = Self::from_tree(fim, ff, numbers, source, lhs);
                let rhs = Self::from_tree(fim, ff, numbers, source, rhs);
                match lhs {
                    Ok(lhs) => match rhs {
                        Ok(rhs) => Ok(FilterCondition::And(Box::new(lhs), Box::new(rhs))),
                        Err(e) => Err(e),
                    },
                    Err(e) => Err(e),
                }
            },
        }
    }

    /// Reads the text of a filter, with the numbers that its values read as.
    pub fn from_str(
        fields_ids_map: &FieldsIdsMap,
        filterable_fields: &Vec<String>,
        numbers: &NumberReadings,
        expression: &str,
    ) -> (r: Result<FilterCondition, FilterError>)
        ensures
            outcome(r) == filter_of(
                fields_ids_map.fields@,
                filterable_fields@,
                numbers.numbers@,
                expression@,
            ),
    {
        let chars = chars_of(expression);
        match parse(&chars) {
            Ok(lexed) => FilterCondition::from_tree(
                fields_ids_map,
                filterable_fields,
                numbers,
                expression,
                &lexed,
            ),
            Err(fault) => Err(syntax_error(expression, fault.at, fault.kind)),
        }
    }
}

/// The texts of the tokens, in their order.
pub open spec fn texts_of(source: Seq<char>, tokens: Seq<Token>) -> Seq<Seq<char>> {
    Seq::new(tokens.len(), |i: int| text_of(source, tokens[i]))
}

/// The texts of the values of a filter: what may have to read as a number
/// when the filter is read. A text that is no filter has none.
pub open spec fn literal_texts(expression: Seq<char>) -> Seq<Seq<char>> {
    match parsed(expression) {
        Ok(tree) => texts_of(expression, literals_in(tree)),
        Err(_) => Seq::empty(),
    }
}

/// Gives the texts of the values of a filter, in the order of the text.
pub fn literals_of(expression: &str) -> (r: Vec<String>)
    ensures
        names_of(r@) == literal_texts(expression@),
{
    let chars = chars_of(expression);
    let mut texts: Vec<String> = Vec::new();
    match parse(&chars) {
        Ok(tree) => {
            let tokens = tree.literals();
            let mut k: usize = 0;
            while k < tokens.len()
                invariant
                    0 <= k <= tokens.len(),
                    texts.len() == k,
                    forall|j: int|
                        0 <= j < k ==> (#[trigger] texts[j])@ == text_of(expression@, tokens[j]),
                decreases tokens.len() - k,
            {
                texts.push(tokens[k].fragment(expression));
                k += 1;
            }
            assert(names_of(texts@) =~= texts_of(expression@, tokens@));
        },
        Err(_) => {
            assert(names_of(texts@) =~= Seq::<Seq<char>>::empty());
        },
    }
    texts
}

} // verus!
