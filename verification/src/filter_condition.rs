//! The tree of a filter.

use crate::index::FieldId;
use crate::number::Number;
use crate::operator::{negated, Operator, OperatorView};
use vstd::prelude::*;

verus! {

/// A filter: conditions on fields, joined by `Or` and `And`.
///
/// `Empty` stands for a condition on a field that may be filtered on and that
/// no document has: it matches no document.
#[derive(Debug, PartialEq)]
pub enum FilterCondition {
    Operator(FieldId, Operator),
    Or(Box<FilterCondition>, Box<FilterCondition>),
    And(Box<FilterCondition>, Box<FilterCondition>),
    Empty,
}

/// A filter, with its conditions by their views.
pub enum FilterView {
    Operator(FieldId, OperatorView),
    Or(Box<FilterView>, Box<FilterView>),
    And(Box<FilterView>, Box<FilterView>),
    Empty,
}

impl FilterCondition {
    /// The filter, with its conditions by their views.
    pub open spec fn model(self) -> FilterView
        decreases self,
    {
        match self {
            FilterCondition::Operator(fid, op) => FilterView::Operator(fid, op@),
            FilterCondition::Or(a, b) => FilterView::Or(Box::new(a.model()), Box::new(b.model())),
            FilterCondition::And(a, b) => FilterView::And(
                Box::new(a.model()),
                Box::new(b.model()),
            ),
            FilterCondition::Empty => FilterView::Empty,
        }
    }
}

impl View for FilterCondition {
    type V = FilterView;

    open spec fn view(&self) -> FilterView {
        self.model()
    }
}

impl FilterView {
    /// The negation of a filter, with the negation pushed down to the
    /// conditions: `Or` and `And` change places, each condition is negated,
    /// and a negated interval becomes the disjunction of the two sides of it.
    pub open spec fn negated(self) -> FilterView
        decreases self,
    {
        match self {
            FilterView::Operator(fid, op) => match negated(op) {
                (op, None) => FilterView::Operator(fid, op),
                (a, Some(b)) => FilterView::Or(
                    Box::new(FilterView::Operator(fid, a)),
                    Box::new(FilterView::Operator(fid, b)),
                ),
            },
            FilterView::Or(a, b) => FilterView::And(Box::new(a.negated()), Box::new(b.negated())),
            FilterView::And(a, b) => FilterView::Or(Box::new(a.negated()), Box::new(b.negated())),
            FilterView::Empty => FilterView::Empty,
        }
    }
}

impl Clone for FilterCondition {
    fn clone(&self) -> (r: Self)
        ensures
            r@ == self@,
    {
        self.duplicate()
    }
}

impl FilterCondition {
    /// A copy of the filter.
    fn duplicate(&self) -> (r: FilterCondition)
        ensures
            r@ == self@,
        decreases *self,
    {
        match self {
            FilterCondition::Operator(fid, op) => FilterCondition::Operator(*fid, op.clone()),
            FilterCondition::Or(a, b) => FilterCondition::Or(
                Box::new(a.duplicate()),
                Box::new(b.duplicate()),
            ),
            FilterCondition::And(a, b) => FilterCondition::And(
                Box::new(a.duplicate()),
                Box::new(b.duplicate()),
            ),
            FilterCondition::Empty => FilterCondition::Empty,
        }
    }

    /// Negates the filter, pushing the negation down to the conditions.
    pub fn negate(self) -> (r: FilterCondition)
        ensures
            r@ == self@.negated(),
        decreases self,
    {
        match self {
            FilterCondition::Operator(fid, op) => {
                let ghost before = op@;
                match op.negate() {
                    (op, None) => {
                        assert(negated(before) == (op@, None::<OperatorView>));
                        FilterCondition::Operator(fid, op)
                    },
                    (a, Some(b)) => {
                        assert(negated(before) == (a@, Some(b@)));
                        let left = FilterCondition::Operator(fid, a);
                        let right = FilterCondition::Operator(fid, b);
                        assert(left.model() == FilterView::Operator(fid, a@));
                        assert(right.model() == FilterView::Operator(fid, b@));
                        FilterCondition::Or(Box::new(left), Box::new(right))
                    },
                }
            },
            FilterCondition::Or(a, b) => {
                let a = a.negate();
                let b = b.negate();
                FilterCondition::And(Box::new(a), Box::new(b))
            },
            FilterCondition::And(a, b) => {
                let a = a.negate();
                let b = b.negate();
                FilterCondition::Or(Box::new(a), Box::new(b))
            },
            FilterCondition::Empty => FilterCondition::Empty,
        }
    }
}

/// The points of the conditions on positions of a filter, each as latitude
/// and longitude, in the order of the filter. They are the points that the
/// neighbourhoods of an index must be known for when the filter is evaluated.
pub open spec fn geo_points_of(filter: FilterView) -> Seq<(Number, Number)>
    decreases filter,
{
    match filter {
        FilterView::Operator(_, OperatorView::GeoLowerThan(lat, lng, _)) => seq![(lat, lng)],
        FilterView::Operator(_, OperatorView::GeoGreaterThan(lat, lng, _)) => seq![(lat, lng)],
        FilterView::Operator(_, _) => Seq::empty(),
        FilterView::Or(a, b) => geo_points_of(*a) + geo_points_of(*b),
        FilterView::And(a, b) => geo_points_of(*a) + geo_points_of(*b),
        FilterView::Empty => Seq::empty(),
    }
}

impl FilterCondition {
    /// Adds the points of the conditions on positions to `found`.
    fn collect_geo_points(&self, found: &mut Vec<(Number, Number)>)
        ensures
            final(found)@ == old(found)@ + geo_points_of(self@),
        decreases *self,
    {
        let ghost before = found@;
        match self {
            FilterCondition::Operator(_, op) => match op {
                Operator::GeoLowerThan(point, _) | Operator::GeoGreaterThan(point, _) => {
                    found.push((point[0], point[1]));
                    assert(found@ =~= before + seq![(point[0], point[1])]);
                },
                _ => {
                    assert(found@ =~= before + Seq::<(Number, Number)>::empty());
                },
            },
            FilterCondition::Or(a, b) => {
                a.collect_geo_points(found);
                b.collect_geo_points(found);
                assert(found@ =~= before + (geo_points_of(a.model()) + geo_points_of(b.model())));
            },
            FilterCondition::And(a, b) => {
                a.collect_geo_points(found);
                b.collect_geo_points(found);
                assert(found@ =~= before + (geo_points_of(a.model()) + geo_points_of(b.model())));
            },
            FilterCondition::Empty => {
                assert(found@ =~= before + Seq::<(Number, Number)>::empty());
            },
        }
    }

    /// The points of the conditions on positions, in the order of the filter.
    pub fn geo_points(&self) -> (found: Vec<(Number, Number)>)
        ensures
            found@ == geo_points_of(self@),
    {
        let mut found: Vec<(Number, Number)> = Vec::new();
        self.collect_geo_points(&mut found);
        assert(Seq::<(Number, Number)>::empty() + geo_points_of(self@) =~= geo_points_of(self@));
        found
    }
}

} // verus!
