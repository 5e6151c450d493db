//! The conditions that a filter puts on one field.

use crate::number::Number;
use vstd::prelude::*;

verus! {

/// A condition on the values of one field.
///
/// Where a condition carries an optional number and a string, the string is the
/// value as written, in lower case, and the number is that value read as a
/// number, where it reads as one.
#[derive(Debug, PartialEq)]
pub enum Operator {
    /// The value is strictly greater than the number.
    GreaterThan(Number),
    /// The value is greater than the number or equal to it.
    GreaterThanOrEqual(Number),
    /// The value is the number or the string.
    Equal(Option<Number>, String),
    /// The field has a value, and it is neither the number nor the string.
    NotEqual(Option<Number>, String),
    /// The string value contains the string.
    Includes(Option<Number>, String),
    /// The string value does not contain the string.
    NotIncludes(Option<Number>, String),
    /// The value is strictly lower than the number.
    LowerThan(Number),
    /// The value is lower than the number or equal to it.
    LowerThanOrEqual(Number),
    /// The value lies between the two numbers, both included.
    Between(Number, Number),
    /// The document lies closer to the point (latitude, longitude) than the
    /// radius.
    GeoLowerThan([Number; 2], Number),
    /// The document has a position, and does not lie closer to the point than
    /// the radius.
    GeoGreaterThan([Number; 2], Number),
}

/// A condition, with its string as a sequence of characters and its point as
/// latitude and longitude.
pub enum OperatorView {
    GreaterThan(Number),
    GreaterThanOrEqual(Number),
    Equal(Option<Number>, Seq<char>),
    NotEqual(Option<Number>, Seq<char>),
    Includes(Option<Number>, Seq<char>),
    NotIncludes(Option<Number>, Seq<char>),
    LowerThan(Number),
    LowerThanOrEqual(Number),
    Between(Number, Number),
    GeoLowerThan(Number, Number, Number),
    GeoGreaterThan(Number, Number, Number),
}

impl View for Operator {
    type V = OperatorView;

    open spec fn view(&self) -> OperatorView {
        match *self {
            Operator::GreaterThan(n) => OperatorView::GreaterThan(n),
            Operator::GreaterThanOrEqual(n) => OperatorView::GreaterThanOrEqual(n),
            Operator::Equal(n, s) => OperatorView::Equal(n, s@),
            Operator::NotEqual(n, s) => OperatorView::NotEqual(n, s@),
            Operator::Includes(n, s) => OperatorView::Includes(n, s@),
            Operator::NotIncludes(n, s) => OperatorView::NotIncludes(n, s@),
            Operator::LowerThan(n) => OperatorView::LowerThan(n),
            Operator::LowerThanOrEqual(n) => OperatorView::LowerThanOrEqual(n),
            Operator::Between(n, m) => OperatorView::Between(n, m),
            Operator::GeoLowerThan(point, radius) => OperatorView::GeoLowerThan(
                point[0],
                point[1],
                radius,
            ),
            Operator::GeoGreaterThan(point, radius) => OperatorView::GeoGreaterThan(
                point[0],
                point[1],
                radius,
            ),
        }
    }
}

/// The negation of a condition: one condition, or the two whose disjunction
/// negates an interval.
pub open spec fn negated(op: OperatorView) -> (OperatorView, Option<OperatorView>) {
    match op {
        OperatorView::GreaterThan(n) => (OperatorView::LowerThanOrEqual(n), None),
        OperatorView::GreaterThanOrEqual(n) => (OperatorView::LowerThan(n), None),
        OperatorView::Equal(n, s) => (OperatorView::NotEqual(n, s), None),
        OperatorView::NotEqual(n, s) => (OperatorView::Equal(n, s), None),
        OperatorView::Includes(n, s) => (OperatorView::NotIncludes(n, s), None),
        OperatorView::NotIncludes(n, s) => (OperatorView::Includes(n, s), None),
        OperatorView::LowerThan(n) => (OperatorView::GreaterThanOrEqual(n), None),
        OperatorView::LowerThanOrEqual(n) => (OperatorView::GreaterThan(n), None),
        OperatorView::Between(n, m) => (
            OperatorView::LowerThan(n),
            Some(OperatorView::GreaterThan(m)),
        ),
        OperatorView::GeoLowerThan(lat, lng, radius) => (
            OperatorView::GeoGreaterThan(lat, lng, radius),
            None,
        ),
        OperatorView::GeoGreaterThan(lat, lng, radius) => (
            OperatorView::GeoLowerThan(lat, lng, radius),
            None,
        ),
    }
}

/// The view of a condition that may be there.
pub open spec fn view_of(op: Option<Operator>) -> Option<OperatorView> {
    match op {
        Some(op) => Some(op@),
        None => None,
    }
}

impl Clone for Operator {
    fn clone(&self) -> (r: Self)
        ensures
            r@ == self@,
    {
        match self {
            Operator::GreaterThan(n) => Operator::GreaterThan(*n),
            Operator::GreaterThanOrEqual(n) => Operator::GreaterThanOrEqual(*n),
            Operator::Equal(n, s) => Operator::Equal(*n, s.clone()),
            Operator::NotEqual(n, s) => Operator::NotEqual(*n, s.clone()),
            Operator::Includes(n, s) => Operator::Includes(*n, s.clone()),
            Operator::NotIncludes(n, s) => Operator::NotIncludes(*n, s.clone()),
            Operator::LowerThan(n) => Operator::LowerThan(*n),
            Operator::LowerThanOrEqual(n) => Operator::LowerThanOrEqual(*n),
            Operator::Between(n, m) => Operator::Between(*n, *m),
            Operator::GeoLowerThan(point, distance) => Operator::GeoLowerThan(*point, *distance),
            Operator::GeoGreaterThan(point, distance) => Operator::GeoGreaterThan(
                *point,
                *distance,
            ),
        }
    }
}

impl Operator {
    /// Negates the condition. An interval gives two conditions, of which a
    /// value must meet one: to lie below the interval, or above it.
    pub fn negate(self) -> (r: (Operator, Option<Operator>))
        ensures
            (r.0@, view_of(r.1)) == negated(self@),
    {
        match self {
            Operator::GreaterThan(n) => (Operator::LowerThanOrEqual(n), None),
            Operator::GreaterThanOrEqual(n) => (Operator::LowerThan(n), None),
            Operator::Equal(n, s) => (Operator::NotEqual(n, s), None),
            Operator::NotEqual(n, s) => (Operator::Equal(n, s), None),
            Operator::Includes(n, s) => (Operator::NotIncludes(n, s), None),
            Operator::NotIncludes(n, s) => (Operator::Includes(n, s), None),
            Operator::LowerThan(n) => (Operator::GreaterThanOrEqual(n), None),
            Operator::LowerThanOrEqual(n) => (Operator::GreaterThan(n), None),
            Operator::Between(n, m) => (Operator::LowerThan(n), Some(Operator::GreaterThan(m))),
            Operator::GeoLowerThan(point, distance) => (
                Operator::GeoGreaterThan(point, distance),
                None,
            ),
            Operator::GeoGreaterThan(point, distance) => (
                Operator::GeoLowerThan(point, distance),
                None,
            ),
        }
    }
}

} // verus!
