//! The syntax tree of a filter.

use crate::condition::Condition;
use crate::token::Token;
use vstd::prelude::*;

verus! {

/// The syntax tree of a filter, as it is written: fields and values are
/// tokens of the text.
#[derive(Debug, PartialEq)]
pub enum FilterTree {
    /// A condition on the field that the token `fid` names.
    Condition { fid: Token, op: Condition },
    /// `_geoRadius` with the parameters that it was given. `span` is the
    /// parameter list with its parentheses, and an empty token behind the word
    /// where there is no list.
    GeoRadius { span: Token, parameters: Vec<Token> },
    /// `NOT` before a filter.
    Not(Box<FilterTree>),
    /// Two filters joined by `OR`.
    Or(Box<FilterTree>, Box<FilterTree>),
    /// Two filters joined by `AND`.
    And(Box<FilterTree>, Box<FilterTree>),
}

/// A syntax tree, with its parameters as a sequence.
pub enum TreeView {
    Condition { fid: Token, op: Condition },
    GeoRadius { span: Token, parameters: Seq<Token> },
    Not(Box<TreeView>),
    Or(Box<TreeView>, Box<TreeView>),
    And(Box<TreeView>, Box<TreeView>),
}

impl FilterTree {
    /// The tree, with its parameters as a sequence.
    pub open spec fn model(self) -> TreeView
        decreases self,
    {
        match self {
            FilterTree::Condition { fid, op } => TreeView::Condition { fid, op },
            FilterTree::GeoRadius { span, parameters } => TreeView::GeoRadius {
                span,
                parameters: parameters@,
            },
            FilterTree::Not(a) => TreeView::Not(Box::new(a.model())),
            FilterTree::Or(a, b) => TreeView::Or(Box::new(a.model()), Box::new(b.model())),
            FilterTree::And(a, b) => TreeView::And(Box::new(a.model()), Box::new(b.model())),
        }
    }
}

impl View for FilterTree {
    type V = TreeView;

    open spec fn view(&self) -> TreeView {
        self.model()
    }
}

/// The values of a written condition.
pub open spec fn values_of(op: Condition) -> Seq<Token> {
    match op {
        Condition::GreaterThan(v) => seq![v],
        Condition::GreaterThanOrEqual(v) => seq![v],
        Condition::Equal(v) => seq![v],
        Condition::NotEqual(v) => seq![v],
        Condition::LowerThan(v) => seq![v],
        Condition::Includes(v) => seq![v],
        Condition::NotIncludes(v) => seq![v],
        Condition::LowerThanOrEqual(v) => seq![v],
        Condition::Between { from, to } => seq![from, to],
    }
}

/// The values of a syntax tree, in the order of the text: the values of its
/// conditions and the parameters of `_geoRadius`. They are what may have to
/// read as a number.
pub open spec fn literals_in(tree: TreeView) -> Seq<Token>
    decreases tree,
{
    match tree {
        TreeView::Condition { fid, op } => values_of(op),
        TreeView::GeoRadius { span, parameters } => parameters,
        TreeView::Not(a) => literals_in(*a),
        TreeView::Or(a, b) => literals_in(*a) + literals_in(*b),
        TreeView::And(a, b) => literals_in(*a) + literals_in(*b),
    }
}

impl FilterTree {
    /// Adds the values of the tree to `found`.
    fn collect_literals(&self, found: &mut Vec<Token>)
        ensures
            final(found)@ == old(found)@ + literals_in(self@),
        decreases *self,
    {
        let ghost before = found@;
        match self {
            FilterTree::Condition { fid, op } => {
                match op {
                    Condition::GreaterThan(v)
                    | Condition::GreaterThanOrEqual(v)
                    | Condition::Equal(v)
                    | Condition::NotEqual(v)
                    | Condition::LowerThan(v)
                    | Condition::Includes(v)
                    | Condition::NotIncludes(v)
                    | Condition::LowerThanOrEqual(v) => {
                        found.push(*v);
                        assert(found@ =~= before + seq![*v]);
                    },
                    Condition::Between { from, to } => {
                        found.push(*from);
                        found.push(*to);
                        assert(found@ =~= before + seq![*from, *to]);
                    },
                }
            },
            FilterTree::GeoRadius { span, parameters } => {
                let mut k: usize = 0;
                assert(before + parameters@.subrange(0, 0) =~= before);
                while k < parameters.len()
                    invariant
                        0 <= k <= parameters.len(),
                        found@ == before + parameters@.subrange(0, k as int),
                    decreases parameters.len() - k,
                {
                    found.push(parameters[k]);
                    assert(found@ =~= before + parameters@.subrange(0, k + 1));
                    k += 1;
                }
                assert(parameters@.subrange(0, parameters.len() as int) =~= parameters@);
            },
            FilterTree::Not(a) => {
                a.collect_literals(found);
            },
            FilterTree::Or(a, b) => {
                a.collect_literals(found);
                b.collect_literals(found);
                assert(found@ =~= before + (literals_in(a.model()) + literals_in(b.model())));
            },
            FilterTree::And(a, b) => {
                a.collect_literals(found);
                b.collect_literals(found);
                assert(found@ =~= before + (literals_in(a.model()) + literals_in(b.model())));
            },
        }
    }

    /// The values of the tree, in the order of the text.
    pub fn literals(&self) -> (found: Vec<Token>)
        ensures
            found@ == literals_in(self@),
    {
        let mut found: Vec<Token> = Vec::new();
        self.collect_literals(&mut found);
        assert(Seq::<Token>::empty() + literals_in(self@) =~= literals_in(self@));
        found
    }
}

} // verus!
