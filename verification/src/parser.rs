//! The grammar of filters.
//!
//! ```text
//! filter     = or
//! or         = and ("OR" and)*
//! and        = term ("AND" term)*
//! term       = "NOT"? atom
//! atom       = "(" or ")" | geo_radius | condition | to
//! geo_radius = "_geoRadius" parameters?
//! parameters = "(" (value ",")* value? ")"
//! condition  = key sign value
//! to         = key value "TO" value
//! key        = value | "_geoPoint" parameters
//! value      = word | quoted string
//! ```
//!
//! `AND` binds tighter than `OR`, `NOT` tighter than both, and both join to the
//! left.

use crate::condition::{
    condition_at, has_kind, is_kind, parameter_list, parse_condition, parse_parameters, parse_to,
    place, stretch, to_at, token_at,
};
use crate::error::{SyntaxFault, SyntaxKind};
use crate::lexer::{lex, lexemes, Lexeme, LexemeKind};
use crate::token::Token;
use crate::tree::{FilterTree, TreeView};
use vstd::prelude::*;

verus! {

/// What `_geoRadius` at `i` gives, and the place after it: the parameters of
/// the list that follows, or none where no list follows.
pub open spec fn geo_radius_at(lexemes: Seq<Lexeme>, i: int) -> (TreeView, int) {
    match parameter_list(lexemes, i + 1) {
        Some((parameters, next)) => (
            TreeView::GeoRadius { span: stretch(lexemes, i + 1, next - 1), parameters },
            next,
        ),
        None => (
            TreeView::GeoRadius {
                span: Token { start: place(lexemes, i, 0).end, end: place(lexemes, i, 0).end },
                parameters: Seq::empty(),
            },
            i + 1,
        ),
    }
}

/// The atom at `i` and the place after it.
pub open spec fn atom_at(lexemes: Seq<Lexeme>, i: int, end: usize) -> Result<
    (TreeView, int),
    SyntaxFault,
>
    decreases lexemes.len() - i, 1int,
{
    if is_kind(lexemes, i, LexemeKind::Open) {
        match or_at(lexemes, i + 1, end) {
            Ok((tree, next)) => if is_kind(lexemes, next, LexemeKind::Close) {
                Ok((tree, next + 1))
            } else {
                Err(
                    SyntaxFault {
                        at: place(lexemes, next, end),
                        kind: SyntaxKind::ExpectedClosingParenthesis,
                    },
                )
            },
            Err(fault) => Err(fault),
        }
    } else if is_kind(lexemes, i, LexemeKind::GeoRadius) {
        Ok(geo_radius_at(lexemes, i))
    } else {
        match condition_at(lexemes, i, end) {
            Ok(Some(found)) => Ok(found),
            Ok(None) => match to_at(lexemes, i, end) {
                Ok(Some(found)) => Ok(found),
                Ok(None) => Err(
                    SyntaxFault { at: place(lexemes, i, end), kind: SyntaxKind::ExpectedCondition },
                ),
                Err(fault) => Err(fault),
            },
            Err(fault) => Err(fault),
        }
    }
}

/// The term at `i` and the place after it: an atom, or `NOT` and an atom.
pub open spec fn term_at(lexemes: Seq<Lexeme>, i: int, end: usize) -> Result<
    (TreeView, int),
    SyntaxFault,
>
    decreases lexemes.len() - i, 2int,
{
    if is_kind(lexemes, i, LexemeKind::Not) {
        match atom_at(lexemes, i + 1, end) {
            Ok((tree, next)) => Ok((TreeView::Not(Box::new(tree)), next)),
            Err(fault) => Err(fault),
        }
    } else {
        atom_at(lexemes, i, end)
    }
}

/// What follows the conjunction `left` at `i`: each `AND` and the term behind
/// it join what stands before them.
pub open spec fn and_tail(lexemes: Seq<Lexeme>, left: TreeView, i: int, end: usize) -> Result<
    (TreeView, int),
    SyntaxFault,
>
    decreases lexemes.len() - i, 0int,
{
    if is_kind(lexemes, i, LexemeKind::And) {
        match term_at(lexemes, i + 1, end) {
            Ok((right, next)) => if i < next <= lexemes.len() {
                and_tail(lexemes, TreeView::And(Box::new(left), Box::new(right)), next, end)
            } else {
                Ok((TreeView::And(Box::new(left), Box::new(right)), next))
            },
            Err(fault) => Err(fault),
        }
    } else {
        Ok((left, i))
    }
}

/// The conjunction at `i` and the place after it: terms joined by `AND`.
pub open spec fn and_at(lexemes: Seq<Lexeme>, i: int, end: usize) -> Result<
    (TreeView, int),
    SyntaxFault,
>
    decreases lexemes.len() - i, 3int,
{
    match term_at(lexemes, i, end) {
        Ok((left, next)) => if i < next <= lexemes.len() {
            and_tail(lexemes, left, next, end)
        } else {
            Ok((left, next))
        },
        Err(fault) => Err(fault),
    }
}

/// What follows the disjunction `left` at `i`: each `OR` and the conjunction
/// behind it join what stands before them.
pub open spec fn or_tail(lexemes: Seq<Lexeme>, left: TreeView, i: int, end: usize) -> Result<
    (TreeView, int),
    SyntaxFault,
>
    decreases lexemes.len() - i, 0int,
{
    if is_kind(lexemes, i, LexemeKind::Or) {
        match and_at(lexemes, i + 1, end) {
            Ok((right, next)) => if i < next <= lexemes.len() {
                or_tail(lexemes, TreeView::Or(Box::new(left), Box::new(right)), next, end)
            } else {
                Ok((TreeView::Or(Box::new(left), Box::new(right)), next))
            },
            Err(fault) => Err(fault),
        }
    } else {
        Ok((left, i))
    }
}

/// The disjunction at `i` and the place after it: conjunctions joined by `OR`.
pub open spec fn or_at(lexemes: Seq<Lexeme>, i: int, end: usize) -> Result<
    (TreeView, int),
    SyntaxFault,
>
    decreases lexemes.len() - i, 4int,
{
    match and_at(lexemes, i, end) {
        Ok((left, next)) => if i < next <= lexemes.len() {
            or_tail(lexemes, left, next, end)
        } else {
            Ok((left, next))
        },
        Err(fault) => Err(fault),
    }
}

/// The tree of the lexemes of a filter: a disjunction that takes them all.
pub open spec fn tree_of(lexemes: Seq<Lexeme>, end: usize) -> Result<TreeView, SyntaxFault> {
    match or_at(lexemes, 0, end) {
        Ok((tree, next)) => if next == lexemes.len() {
            Ok(tree)
        } else {
            Err(SyntaxFault { at: place(lexemes, next, end), kind: SyntaxKind::ExpectedEndOfInput })
        },
        Err(fault) => Err(fault),
    }
}

/// The tree of the text of a filter, or the first fault in it.
pub open spec fn parsed(source: Seq<char>) -> Result<TreeView, SyntaxFault> {
    match lexemes(source) {
        Ok(found) => tree_of(found, source.len() as usize),
        Err(fault) => Err(fault),
    }
}

/// Whether what a parser gave is what the grammar gives: the same tree and
/// place, or the same fault.
pub open spec fn is_read(
    found: Result<(FilterTree, usize), SyntaxFault>,
    wanted: Result<(TreeView, int), SyntaxFault>,
) -> bool {
    match found {
        Ok((tree, next)) => wanted == Ok::<_, SyntaxFault>((tree@, next as int)),
        Err(fault) => wanted == Err::<(TreeView, int), _>(fault),
    }
}

/// Reads what the word `_geoRadius` at `i` gives.
fn parse_geo_radius(lexemes: &Vec<Lexeme>, i: usize) -> (r: (FilterTree, usize))
    requires
        is_kind(lexemes@, i as int, LexemeKind::GeoRadius),
    ensures
        (r.0@, r.1 as int) == geo_radius_at(lexemes@, i as int),
        i < r.1 <= lexemes.len(),
{
    assert(i < lexemes.len());
    match parse_parameters(lexemes, i + 1) {
        Some((parameters, next)) => (
            FilterTree::GeoRadius {
                span: Token { start: token_at(lexemes, i + 1, 0).start, end: lexemes[next - 1].token.end },
                parameters,
            },
            next,
        ),
        None => {
            let behind = lexemes[i].token.end;
            (
                FilterTree::GeoRadius {
                    span: Token { start: behind, end: behind },
                    parameters: Vec::new(),
                },
                i + 1,
            )
        },
    }
}

/// Reads the atom at `i`.
fn parse_atom(lexemes: &Vec<Lexeme>, i: usize, end: usize) -> (r: Result<
    (FilterTree, usize),
    SyntaxFault,
>)
    requires
        i <= lexemes.len(),
    ensures
        is_read(r, atom_at(lexemes@, i as int, end)),
        r matches Ok((_, next)) ==> i < next <= lexemes.len(),
    decreases lexemes.len() - i, 1int,
{
    if has_kind(lexemes, i, LexemeKind::Open) {
        match parse_or(lexemes, i + 1, end) {
            Ok((tree, next)) => {
                if has_kind(lexemes, next, LexemeKind::Close) {
                    Ok((tree, next + 1))
                } else {
                    Err(
                        SyntaxFault {
                            at: token_at(lexemes, next, end),
                            kind: SyntaxKind::ExpectedClosingParenthesis,
                        },
                    )
                }
            },
            Err(fault) => Err(fault),
        }
    } else if has_kind(lexemes, i, LexemeKind::GeoRadius) {
        Ok(parse_geo_radius(lexemes, i))
    } else {
        match parse_condition(lexemes, i, end) {
            Ok(Some(found)) => Ok(found),
            Ok(None) => match parse_to(lexemes, i, end) {
                Ok(Some(found)) => Ok(found),
                Ok(None) => Err(
                    SyntaxFault { at: token_at(lexemes, i, end), kind: SyntaxKind::ExpectedCondition },
                ),
                Err(fault) => Err(fault),
            },
            Err(fault) => Err(fault),
        }
    }
}

/// Reads the term at `i`.
fn parse_term(lexemes: &Vec<Lexeme>, i: usize, end: usize) -> (r: Result<
    (FilterTree, usize),
    SyntaxFault,
>)
    requires
        i <= lexemes.len(),
    ensures
        is_read(r, term_at(lexemes@, i as int, end)),
        r matches Ok((_, next)) ==> i < next <= lexemes.len(),
    decreases lexemes.len() - i, 2int,
{
    if has_kind(lexemes, i, LexemeKind::Not) {
        match parse_atom(lexemes, i + 1, end) {
            Ok((tree, next)) => Ok((FilterTree::Not(Box::new(tree)), next)),
            Err(fault) => Err(fault),
        }
    } else {
        parse_atom(lexemes, i, end)
    }
}

/// Reads what follows the conjunction `left` at `i`.
fn parse_and_tail(lexemes: &Vec<Lexeme>, left: FilterTree, i: usize, end: usize) -> (r: Result<
    (FilterTree, usize),
    SyntaxFault,
>)
    requires
        i <= lexemes.len(),
    ensures
        is_read(r, and_tail(lexemes@, left@, i as int, end)),
        r matches Ok((_, next)) ==> i <= next <= lexemes.len(),
    decreases lexemes.len() - i, 0int,
{
    if has_kind(lexemes, i, LexemeKind::And) {
        match parse_term(lexemes, i + 1, end) {
            Ok((right, next)) => parse_and_tail(
                lexemes,
                FilterTree::And(Box::new(left), Box::new(right)),
                next,
                end,
            ),
            Err(fault) => Err(fault),
        }
    } else {
        Ok((left, i))
    }
}

/// Reads the conjunction at `i`.
fn parse_and(lexemes: &Vec<Lexeme>, i: usize, end: usize) -> (r: Result<
    (FilterTree, usize),
    SyntaxFault,
>)
    requires
        i <= lexemes.len(),
    ensures
        is_read(r, and_at(lexemes@, i as int, end)),
        r matches Ok((_, next)) ==> i < next <= lexemes.len(),
    decreases lexemes.len() - i, 3int,
{
    match parse_term(lexemes, i, end) {
        Ok((left, next)) => parse_and_tail(lexemes, left, next, end),
        Err(fault) => Err(fault),
    }
}

/// Reads what follows the disjunction `left` at `i`.
fn parse_or_tail(lexemes: &Vec<Lexeme>, left: FilterTree, i: usize, end: usize) -> (r: Result<
    (FilterTree, usize),
    SyntaxFault,
>)
    requires
        i <= lexemes.len(),
    ensures
        is_read(r, or_tail(lexemes@, left@, i as int, end)),
        r matches Ok((_, next)) ==> i <= next <= lexemes.len(),
    decreases lexemes.len() - i, 0int,
{
    if has_kind(lexemes, i, LexemeKind::Or) {
        match parse_and(lexemes, i + 1, end) {
            Ok((right, next)) => parse_or_tail(
                lexemes,
                FilterTree::Or(Box::new(left), Box::new(right)),
                next,
                end,
            ),
            Err(fault) => Err(fault),
        }
    } else {
        Ok((left, i))
    }
}

/// Reads the disjunction at `i`.
fn parse_or(lexemes: &Vec<Lexeme>, i: usize, end: usize) -> (r: Result<
    (FilterTree, usize),
    SyntaxFault,
>)
    requires
        i <= lexemes.len(),
    ensures
        is_read(r, or_at(lexemes@, i as int, end)),
        r matches Ok((_, next)) ==> i < next <= lexemes.len(),
    decreases lexemes.len() - i, 4int,
{
    match parse_and(lexemes, i, end) {
        Ok((left, next)) => parse_or_tail(lexemes, left, next, end),
        Err(fault) => Err(fault),
    }
}

/// Whether what was read of a filter is what the grammar gives of it.
pub open spec fn is_tree_of(
    found: Result<FilterTree, SyntaxFault>,
    wanted: Result<TreeView, SyntaxFault>,
) -> bool {
    match found {
        Ok(tree) => wanted == Ok::<_, SyntaxFault>(tree@),
        Err(fault) => wanted == Err::<TreeView, _>(fault),
    }
}

/// Reads the lexemes of a filter into its tree. `end` is the length of the
/// text, for the place of what is missing at its end.
pub fn parse_lexemes(lexemes: &Vec<Lexeme>, end: usize) -> (r: Result<FilterTree, SyntaxFault>)
    ensures
        is_tree_of(r, tree_of(lexemes@, end)),
{
    match parse_or(lexemes, 0, end) {
        Ok((tree, next)) => {
            if next == lexemes.len() {
                Ok(tree)
            } else {
                Err(
                    SyntaxFault {
                        at: token_at(lexemes, next, end),
                        kind: SyntaxKind::ExpectedEndOfInput,
                    },
                )
            }
        },
        Err(fault) => Err(fault),
    }
}

/// Reads the characters of a filter into its tree.
pub fn parse(chars: &Vec<char>) -> (r: Result<FilterTree, SyntaxFault>)
    ensures
        is_tree_of(r, parsed(chars@)),
{
    match lex(chars) {
        Ok(found) => parse_lexemes(&found, chars.len()),
        Err(fault) => Err(fault),
    }
}

} // verus!
