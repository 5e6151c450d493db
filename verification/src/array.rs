//! Filters given as an array: each element is a rule, or a group of rules of
//! which one must hold, and every element must hold.

use crate::error::{ErrorView, FilterError};
use crate::fields::{names_of, FieldsIdsMap, NumberReadings};
use crate::filter_condition::{FilterCondition, FilterView};
use crate::index::FieldId;
use crate::number::Number;
use crate::resolve::filter_of;
use either::Either;
use vstd::prelude::*;

verus! {

#[verifier::external_type_specification]
#[verifier::external_body]
#[verifier::reject_recursive_types(L)]
#[verifier::reject_recursive_types(R)]
pub struct ExEither<L, R>(either::Either<L, R>);

/// An element of the array form of a filter.
pub enum ArrayItem<'a> {
    /// A group of rules, of which one must hold.
    Any(&'a Vec<String>),
    /// A rule.
    Rule(&'a String),
}

/// An element of the array form of a filter, with its rules as sequences of
/// characters.
pub enum ArrayItemView {
    Any(Seq<Seq<char>>),
    Rule(Seq<char>),
}

impl<'a> View for ArrayItem<'a> {
    type V = ArrayItemView;

    open spec fn view(&self) -> ArrayItemView {
        match *self {
            ArrayItem::Any(rules) => ArrayItemView::Any(names_of(rules@)),
            ArrayItem::Rule(rule) => ArrayItemView::Rule(rule@),
        }
    }
}

/// What an `Either` of the array form holds: a group of rules on the left, a
/// rule on the right.
pub uninterp spec fn array_item(element: Either<Vec<String>, String>) -> ArrayItemView;

/// Tells the two variants of `either::Either` apart: `Left` holds a group of
/// rules, `Right` a rule.
#[verifier::external_body]
pub(crate) fn item_of<'a>(element: &'a Either<Vec<String>, String>) -> (r: ArrayItem<'a>)
    ensures
        r@ == array_item(*element),
{
    match element {
        Either::Left(rules) => ArrayItem::Any(rules),
        Either::Right(rule) => ArrayItem::Rule(rule),
    }
}

/// The elements of an array, each by what it holds.
pub open spec fn items_of(array: Seq<Either<Vec<String>, String>>) -> Seq<ArrayItemView> {
    Seq::new(array.len(), |i: int| array_item(array[i]))
}

/// `filter` joined to what stands before it, if anything does, by `OR`.
pub open spec fn or_onto(before: Option<FilterView>, filter: FilterView) -> FilterView {
    match before {
        Some(ors) => FilterView::Or(Box::new(ors), Box::new(filter)),
        None => filter,
    }
}

/// `filter` joined to what stands before it, if anything does, by `AND`.
pub open spec fn and_onto(before: Option<FilterView>, filter: FilterView) -> FilterView {
    match before {
        Some(ands) => FilterView::And(Box::new(ands), Box::new(filter)),
        None => filter,
    }
}

/// The rules of a group from `from` on, each read and joined by `OR` to what
/// stands before it; the first error among them otherwise.
pub open spec fn or_fold(
    fields: Seq<(String, FieldId)>,
    filterable: Seq<String>,
    numbers: Seq<(String, Number)>,
    rules: Seq<Seq<char>>,
    from: int,
    ors: Option<FilterView>,
) -> Result<Option<FilterView>, ErrorView>
    decreases rules.len() - from,
{
    if from < 0 || from >= rules.len() {
        Ok(ors)
    } else {
        match filter_of(fields, filterable, numbers, rules[from]) {
            Ok(filter) => or_fold(
                fields,
                filterable,
                numbers,
                rules,
                from + 1,
                Some(or_onto(ors, filter)),
            ),
            Err(e) => Err(e),
        }
    }
}

/// The elements of an array from `from` on, each read and joined by `AND` to
/// what stands before it; the first error among them otherwise. A group
/// without rules joins nothing.
pub open spec fn and_fold(
    fields: Seq<(String, FieldId)>,
    filterable: Seq<String>,
    numbers: Seq<(String, Number)>,
    items: Seq<ArrayItemView>,
    from: int,
    ands: Option<FilterView>,
) -> Result<Option<FilterView>, ErrorView>
    decreases items.len() - from,
{
    if from < 0 || from >= items.len() {
        Ok(ands)
    } else {
        match items[from] {
            ArrayItemView::Any(rules) => match or_fold(fields, filterable, numbers, rules, 0, None) {
                Ok(Some(rule)) => and_fold(
                    fields,
                    filterable,
                    numbers,
                    items,
                    from + 1,
                    Some(and_onto(ands, rule)),
                ),
                Ok(None) => and_fold(fields, filterable, numbers, items, from + 1, ands),
                Err(e) => Err(e),
            },
            ArrayItemView::Rule(rule) => match filter_of(fields, filterable, numbers, rule) {
                Ok(filter) => and_fold(
                    fields,
                    filterable,
                    numbers,
                    items,
                    from + 1,
                    Some(and_onto(ands, filter)),
                ),
                Err(e) => Err(e),
            },
        }
    }
}

/// The filter that an array stands for: none for an array without rules.
pub open spec fn filter_of_array(
    fields: Seq<(String, FieldId)>,
    filterable: Seq<String>,
    numbers: Seq<(String, Number)>,
    items: Seq<ArrayItemView>,
) -> Result<Option<FilterView>, ErrorView> {
    and_fold(fields, filterable, numbers, items, 0, None)
}

/// What was made of an array, by its views.
pub open spec fn array_outcome(r: Result<Option<FilterCondition>, FilterError>) -> Result<
    Option<FilterView>,
    ErrorView,
> {
    match r {
        Ok(Some(filter)) => Ok(Some(filter@)),
        Ok(None) => Ok(None),
        Err(e) => Err(e@),
    }
}

/// The view of a filter that may be there.
pub open spec fn view_of(filter: Option<FilterCondition>) -> Option<FilterView> {
    match filter {
        Some(filter) => Some(filter@),
        None => None,
    }
}

/// Reads the rules of a group and joins them by `OR`.
fn any_of(
    fields_ids_map: &FieldsIdsMap,
    filterable_fields: &Vec<String>,
    numbers: &NumberReadings,
    rules: &Vec<String>,
) -> (r: Result<Option<FilterCondition>, FilterError>)
    ensures
        array_outcome(r) == or_fold(
            fields_ids_map.fields@,
            filterable_fields@,
            numbers.numbers@,
            names_of(rules@),
            0,
            None,
        ),
{
    let mut ors: Option<FilterCondition> = None;
    let mut j: usize = 0;
    while j < rules.len()
        invariant
            0 <= j <= rules.len(),
            or_fold(
                fields_ids_map.fields@,
                filterable_fields@,
                numbers.numbers@,
                names_of(rules@),
                0,
                None,
            ) == or_fold(
                fields_ids_map.fields@,
                filterable_fields@,
                numbers.numbers@,
                names_of(rules@),
                j as int,
                view_of(ors),
            ),
        decreases rules.len() - j,
    {
        let condition = match FilterCondition::from_str(
            fields_ids_map,
            filterable_fields,
            numbers,
            rules[j].as_str(),
        ) {
            Ok(condition) => condition,
            Err(e) => {
                return Err(e);
            },
        };
        ors = match ors {
            Some(ors) => Some(FilterCondition::Or(Box::new(ors), Box::new(condition))),
            None => Some(condition),
        };
        j += 1;
    }
    Ok(ors)
}

impl FilterCondition {
    /// Reads the array form of a filter, with the numbers that the values of
    /// its rules read as: every element must hold, and of a group of rules,
    /// one. An array without rules gives no filter.
    pub fn from_array(
        fields_ids_map: &FieldsIdsMap,
        filterable_fields: &Vec<String>,
        numbers: &NumberReadings,
        array: &Vec<Either<Vec<String>, String>>,
    ) -> (r: Result<Option<FilterCondition>, FilterError>)
        ensures
            array_outcome(r) == filter_of_array(
                fields_ids_map.fields@,
                filterable_fields@,
                numbers.numbers@,
                items_of(array@),
            ),
    {
        let mut ands: Option<FilterCondition> = None;
        let mut i: usize = 0;
        while i < array.len()
            invariant
                0 <= i <= array.len(),
                filter_of_array(
                    fields_ids_map.fields@,
                    filterable_fields@,
                    numbers.numbers@,
                    items_of(array@),
                ) == and_fold(
                    fields_ids_map.fields@,
                    filterable_fields@,
                    numbers.numbers@,
                    items_of(array@),
                    i as int,
                    view_of(ands),
                ),
            decreases array.len() - i,
        {
            let rule = match item_of(&array[i]) {
                ArrayItem::Any(rules) => {
                    match any_of(fields_ids_map, filterable_fields, numbers, rules) {
                        Ok(ors) => ors,
                        Err(e) => {
                            return Err(e);
                        },
                    }
                },
                ArrayItem::Rule(rule) => {
                    match FilterCondition::from_str(
                        fields_ids_map,
                        filterable_fields,
                        numbers,
                        rule.as_str(),
                    ) {
                        Ok(condition) => Some(condition),
                        Err(e) => {
                            return Err(e);
                        },
                    }
                },
            };
            if let Some(rule) = rule {
                ands = match ands {
                    Some(ands) => Some(FilterCondition::And(Box::new(ands), Box::new(rule))),
                    None => Some(rule),
                };
            }
            i += 1;
        }
        Ok(ands)
    }
}

} // verus!
