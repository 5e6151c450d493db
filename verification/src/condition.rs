//! The conditions of a filter as they are written, and the two forms in which
//! they are written:
//!
//! ```text
//! condition      = value ("<=" | ">=" | "!=" | "<" | ">" | "=" | "*" | "!*") value
//! to             = value value TO value
//! ```

use crate::error::{SyntaxFault, SyntaxKind};
use crate::lexer::{Comparison, Lexeme, LexemeKind};
use crate::token::Token;
use crate::tree::{FilterTree, TreeView};
use vstd::prelude::*;

verus! {

/// A condition as it is written: its kind, and the tokens of its values.
#[derive(Debug, Clone, Copy, PartialEq, Eq, Structural)]
pub enum Condition {
    GreaterThan(Token),
    GreaterThanOrEqual(Token),
    Equal(Token),
    NotEqual(Token),
    LowerThan(Token),
    Includes(Token),
    NotIncludes(Token),
    LowerThanOrEqual(Token),
    Between { from: Token, to: Token },
}

/// The negation of a condition: one condition, or the two whose disjunction
/// negates an interval.
pub open spec fn negated_condition(condition: Condition) -> (Condition, Option<Condition>) {
    match condition {
        Condition::GreaterThan(n) => (Condition::LowerThanOrEqual(n), None),
        Condition::GreaterThanOrEqual(n) => (Condition::LowerThan(n), None),
        Condition::Equal(s) => (Condition::NotEqual(s), None),
        Condition::NotEqual(s) => (Condition::Equal(s), None),
        Condition::Includes(s) => (Condition::NotIncludes(s), None),
        Condition::NotIncludes(s) => (Condition::Includes(s), None),
        Condition::LowerThan(n) => (Condition::GreaterThanOrEqual(n), None),
        Condition::LowerThanOrEqual(n) => (Condition::GreaterThan(n), None),
        Condition::Between { from, to } => (
            Condition::LowerThan(from),
            Some(Condition::GreaterThan(to)),
        ),
    }
}

impl Condition {
    /// Negates the condition. An interval gives two conditions, of which a
    /// value must meet one: to lie below the interval, or above it.
    pub fn negate(self) -> (r: (Condition, Option<Condition>))
        ensures
            r == negated_condition(self),
    {
        match self {
            Condition::GreaterThan(n) => (Condition::LowerThanOrEqual(n), None),
            Condition::GreaterThanOrEqual(n) => (Condition::LowerThan(n), None),
            Condition::Equal(s) => (Condition::NotEqual(s), None),
            Condition::NotEqual(s) => (Condition::Equal(s), None),
            Condition::Includes(s) => (Condition::NotIncludes(s), None),
            Condition::NotIncludes(s) => (Condition::Includes(s), None),
            Condition::LowerThan(n) => (Condition::GreaterThanOrEqual(n), None),
            Condition::LowerThanOrEqual(n) => (Condition::GreaterThan(n), None),
            Condition::Between { from, to } => (
                Condition::LowerThan(from),
                Some(Condition::GreaterThan(to)),
            ),
        }
    }
}

/// The condition that a sign before a value makes.
pub open spec fn condition_of(sign: Comparison, value: Token) -> Condition {
    match sign {
        Comparison::LowerThanOrEqual => Condition::LowerThanOrEqual(value),
        Comparison::GreaterThanOrEqual => Condition::GreaterThanOrEqual(value),
        Comparison::NotEqual => Condition::NotEqual(value),
        Comparison::LowerThan => Condition::LowerThan(value),
        Comparison::GreaterThan => Condition::GreaterThan(value),
        Comparison::Equal => Condition::Equal(value),
        Comparison::Includes => Condition::Includes(value),
        Comparison::NotIncludes => Condition::NotIncludes(value),
    }
}

/// The token of the lexeme at `i`, or an empty token at the end of the text
/// where the lexemes end before `i`.
pub open spec fn place(lexemes: Seq<Lexeme>, i: int, end: usize) -> Token {
    if 0 <= i < lexemes.len() {
        lexemes[i].token
    } else {
        Token { start: end, end }
    }
}

/// Whether the lexeme at `i` is of the kind `kind`.
pub open spec fn is_kind(lexemes: Seq<Lexeme>, i: int, kind: LexemeKind) -> bool {
    0 <= i < lexemes.len() && lexemes[i].kind == kind
}

/// The value at `i`: a bare word or a quoted string.
pub open spec fn value_at(lexemes: Seq<Lexeme>, i: int) -> Option<Token> {
    if is_kind(lexemes, i, LexemeKind::Word) || is_kind(lexemes, i, LexemeKind::Quoted) || is_kind(
        lexemes,
        i,
        LexemeKind::GeoPoint,
    ) {
        Some(lexemes[i].token)
    } else {
        None
    }
}

/// The parameters from `i` on, the place behind an opening parenthesis, up to
/// the closing one, and the place after it: values, each but the last
/// followed by a comma, and the last by a comma or not.
pub open spec fn parameters_from(lexemes: Seq<Lexeme>, i: int) -> Option<(Seq<Token>, int)>
    decreases lexemes.len() - i,
{
    if is_kind(lexemes, i, LexemeKind::Close) {
        Some((Seq::empty(), i + 1))
    } else {
        match value_at(lexemes, i) {
            Some(value) => if is_kind(lexemes, i + 1, LexemeKind::Comma) {
                match parameters_from(lexemes, i + 2) {
                    Some((rest, next)) => Some((seq![value] + rest, next)),
                    None => None,
                }
            } else if is_kind(lexemes, i + 1, LexemeKind::Close) {
                Some((seq![value], i + 2))
            } else {
                None
            },
            None => None,
        }
    }
}

/// The parameter list at `i`, if one stands there: from its opening
/// parenthesis to its closing one.
pub open spec fn parameter_list(lexemes: Seq<Lexeme>, i: int) -> Option<(Seq<Token>, int)> {
    if is_kind(lexemes, i, LexemeKind::Open) {
        parameters_from(lexemes, i + 1)
    } else {
        None
    }
}

/// The token from the start of the lexeme at `first` to the end of the one at
/// `last`.
pub open spec fn stretch(lexemes: Seq<Lexeme>, first: int, last: int) -> Token {
    Token { start: place(lexemes, first, 0).start, end: place(lexemes, last, 0).end }
}

/// The key at `i` and the place after it: a value, and with the word
/// `_geoPoint` the parameter list that follows it, if one does.
pub open spec fn key_at(lexemes: Seq<Lexeme>, i: int) -> Option<(Token, int)> {
    match value_at(lexemes, i) {
        Some(value) => if is_kind(lexemes, i, LexemeKind::GeoPoint) {
            match parameter_list(lexemes, i + 1) {
                Some((_, next)) => Some((stretch(lexemes, i, next - 1), next)),
                None => Some((value, i + 1)),
            }
        } else {
            Some((value, i + 1))
        },
        None => None,
    }
}

/// The sign at `i`.
pub open spec fn sign_at(lexemes: Seq<Lexeme>, i: int) -> Option<Comparison> {
    if 0 <= i < lexemes.len() {
        match lexemes[i].kind {
            LexemeKind::Sign(sign) => Some(sign),
            _ => None,
        }
    } else {
        None
    }
}

/// The condition at `i` and the place after it: a key, a sign and a value.
/// `Ok(None)` where no key and sign stand at `i`; a fault where they do and no
/// value follows.
pub open spec fn condition_at(lexemes: Seq<Lexeme>, i: int, end: usize) -> Result<
    Option<(TreeView, int)>,
    SyntaxFault,
> {
    match key_at(lexemes, i) {
        Some((fid, next)) => match sign_at(lexemes, next) {
            Some(sign) => match value_at(lexemes, next + 1) {
                Some(value) => Ok(
                    Some((TreeView::Condition { fid, op: condition_of(sign, value) }, next + 2)),
                ),
                None => Err(
                    SyntaxFault {
                        at: place(lexemes, next + 1, end),
                        kind: SyntaxKind::ExpectedValue,
                    },
                ),
            },
            None => Ok(None),
        },
        None => Ok(None),
    }
}

/// The interval at `i` and the place after it: a key, a value, the word `TO`
/// and a value. `Ok(None)` where no key, value and `TO` stand at `i`; a fault
/// where they do and no value follows.
pub open spec fn to_at(lexemes: Seq<Lexeme>, i: int, end: usize) -> Result<
    Option<(TreeView, int)>,
    SyntaxFault,
> {
    match key_at(lexemes, i) {
        Some((fid, next)) => match value_at(lexemes, next) {
            Some(from) => if is_kind(lexemes, next + 1, LexemeKind::To) {
                match value_at(lexemes, next + 2) {
                    Some(to) => Ok(
                        Some(
                            (TreeView::Condition { fid, op: Condition::Between { from, to } }, next + 3),
                        ),
                    ),
                    None => Err(
                        SyntaxFault {
                            at: place(lexemes, next + 2, end),
                            kind: SyntaxKind::ExpectedValue,
                        },
                    ),
                }
            } else {
                Ok(None)
            },
            None => Ok(None),
        },
        None => Ok(None),
    }
}

/// Whether what a parser gave is what the grammar gives: the same tree and
/// place, the same fault, or no match.
pub open spec fn is_parsed(
    found: Result<Option<(FilterTree, usize)>, SyntaxFault>,
    wanted: Result<Option<(TreeView, int)>, SyntaxFault>,
) -> bool {
    match found {
        Ok(Some((tree, next))) => wanted == Ok::<_, SyntaxFault>(Some((tree@, next as int))),
        Ok(None) => wanted == Ok::<Option<(TreeView, int)>, SyntaxFault>(None),
        Err(fault) => wanted == Err::<Option<(TreeView, int)>, _>(fault),
    }
}

/// Reads the value at `i`.
pub fn parse_value(lexemes: &Vec<Lexeme>, i: usize) -> (r: Option<Token>)
    ensures
        r == value_at(lexemes@, i as int),
{
    if i < lexemes.len() {
        match lexemes[i].kind {
            LexemeKind::Word | LexemeKind::Quoted | LexemeKind::GeoPoint => Some(lexemes[i].token),
            _ => None,
        }
    } else {
        None
    }
}

/// Tests whether the lexeme at `i` is of the kind `kind`.
pub fn has_kind(lexemes: &Vec<Lexeme>, i: usize, kind: LexemeKind) -> (r: bool)
    ensures
        r == is_kind(lexemes@, i as int, kind),
{
    i < lexemes.len() && lexemes[i].kind == kind
}

/// Gives the token of the lexeme at `i`, or an empty token at the end of the
/// text.
pub fn token_at(lexemes: &Vec<Lexeme>, i: usize, end: usize) -> (r: Token)
    ensures
        r == place(lexemes@, i as int, end),
{
    if i < lexemes.len() {
        lexemes[i].token
    } else {
        Token { start: end, end }
    }
}

/// The parameters in `done` followed by what the rest of the list gives.
pub open spec fn parameters_after(done: Seq<Token>, rest: Option<(Seq<Token>, int)>) -> Option<
    (Seq<Token>, int),
> {
    match rest {
        Some((more, next)) => Some((done + more, next)),
        None => None,
    }
}

/// Reads the parameter list at `i`, if one stands there.
pub fn parse_parameters(lexemes: &Vec<Lexeme>, i: usize) -> (r: Option<(Vec<Token>, usize)>)
    ensures
        match r {
            Some((parameters, next)) => parameter_list(lexemes@, i as int) == Some(
                (parameters@, next as int),
            ) && i + 2 <= next <= lexemes.len(),
            None => parameter_list(lexemes@, i as int) is None,
        },
{
    if i >= lexemes.len() || !has_kind(lexemes, i, LexemeKind::Open) {
        return None;
    }
    let mut parameters: Vec<Token> = Vec::new();
    let mut j = i + 1;
    assert(parameters_after(parameters@, parameters_from(lexemes@, j as int)) == parameters_from(
        lexemes@,
        j as int,
    )) by {
        match parameters_from(lexemes@, j as int) {
            Some((more, _)) => assert(parameters@ + more =~= more),
            None => {},
        }
    }
    loop
        invariant
            i < j <= lexemes.len(),
            parameter_list(lexemes@, i as int) == parameters_after(
                parameters@,
                parameters_from(lexemes@, j as int),
            ),
        decreases lexemes.len() - j,
    {
        if has_kind(lexemes, j, LexemeKind::Close) {
            assert(parameters@ + Seq::<Token>::empty() =~= parameters@);
            return Some((parameters, j + 1));
        }
        match parse_value(lexemes, j) {
            Some(value) => {
                if has_kind(lexemes, j + 1, LexemeKind::Comma) {
                    proof {
                        match parameters_from(lexemes@, j + 2) {
                            Some((more, _)) => assert(parameters@ + (seq![value] + more)
                                =~= parameters@.push(value) + more),
                            None => {},
                        }
                    }
                    parameters.push(value);
                    j = j + 2;
                } else if has_kind(lexemes, j + 1, LexemeKind::Close) {
                    assert(parameters@ + seq![value] =~= parameters@.push(value));
                    parameters.push(value);
                    return Some((parameters, j + 2));
                } else {
                    return None;
                }
            },
            None => {
                return None;
            },
        }
    }
}

/// Reads the key at `i`.
pub fn parse_key(lexemes: &Vec<Lexeme>, i: usize) -> (r: Option<(Token, usize)>)
    ensures
        match r {
            Some((key, next)) => key_at(lexemes@, i as int) == Some((key, next as int)) && i < next
                <= lexemes.len(),
            None => key_at(lexemes@, i as int) is None,
        },
{
    match parse_value(lexemes, i) {
        Some(value) => {
            if i < lexemes.len() && has_kind(lexemes, i, LexemeKind::GeoPoint) {
                match parse_parameters(lexemes, i + 1) {
                    Some((_, next)) => Some(
                        (Token { start: value.start, end: lexemes[next - 1].token.end }, next),
                    ),
                    None => Some((value, i + 1)),
                }
            } else {
                Some((value, i + 1))
            }
        },
        None => None,
    }
}

/// Makes the condition of a sign before a value.
fn make_condition(sign: Comparison, value: Token) -> (r: Condition)
    ensures
        r == condition_of(sign, value),
{
    match sign {
        Comparison::LowerThanOrEqual => Condition::LowerThanOrEqual(value),
        Comparison::GreaterThanOrEqual => Condition::GreaterThanOrEqual(value),
        Comparison::NotEqual => Condition::NotEqual(value),
        Comparison::LowerThan => Condition::LowerThan(value),
        Comparison::GreaterThan => Condition::GreaterThan(value),
        Comparison::Equal => Condition::Equal(value),
        Comparison::Includes => Condition::Includes(value),
        Comparison::NotIncludes => Condition::NotIncludes(value),
    }
}

/// Reads the sign at `i`.
fn parse_sign(lexemes: &Vec<Lexeme>, i: usize) -> (r: Option<Comparison>)
    ensures
        r == sign_at(lexemes@, i as int),
{
    if i < lexemes.len() {
        match lexemes[i].kind {
            LexemeKind::Sign(sign) => Some(sign),
            _ => None,
        }
    } else {
        None
    }
}

/// Reads a condition at `input`: a key, a sign and a value.
///
/// ```text
/// condition      = value ("<=" | ">=" | "!=" | "<" | ">" | "=" | "*" | "!*") value
/// ```
pub fn parse_condition(lexemes: &Vec<Lexeme>, input: usize, end: usize) -> (r: Result<
    Option<(FilterTree, usize)>,
    SyntaxFault,
>)
    ensures
        is_parsed(r, condition_at(lexemes@, input as int, end)),
        r matches Ok(Some((_, next))) ==> input < next <= lexemes.len(),
{
    match parse_key(lexemes, input) {
        Some((fid, next)) => match parse_sign(lexemes, next) {
            Some(sign) => match parse_value(lexemes, next + 1) {
                Some(value) => Ok(
                    Some((FilterTree::Condition { fid, op: make_condition(sign, value) }, next + 2)),
                ),
                None => Err(
                    SyntaxFault {
                        at: token_at(lexemes, next + 1, end),
                        kind: SyntaxKind::ExpectedValue,
                    },
                ),
            },
            None => Ok(None),
        },
        None => Ok(None),
    }
}

/// Reads an interval at `input`: a key, a value, the word `TO` and a value.
///
/// ```text
/// to             = value value TO value
/// ```
pub fn parse_to(lexemes: &Vec<Lexeme>, input: usize, end: usize) -> (r: Result<
    Option<(FilterTree, usize)>,
    SyntaxFault,
>)
    ensures
        is_parsed(r, to_at(lexemes@, input as int, end)),
        r matches Ok(Some((_, next))) ==> input < next <= lexemes.len(),
{
    match parse_key(lexemes, input) {
        Some((fid, next)) => match parse_value(lexemes, next) {
            Some(from) => {
                if has_kind(lexemes, next + 1, LexemeKind::To) {
                    match parse_value(lexemes, next + 2) {
                        Some(to) => Ok(
                            Some(
                                (
                                    FilterTree::Condition { fid, op: Condition::Between { from, to } },
                                    next + 3,
                                ),
                            ),
                        ),
                        None => Err(
                            SyntaxFault {
                                at: token_at(lexemes, next + 2, end),
                                kind: SyntaxKind::ExpectedValue,
                            },
                        ),
                    }
                } else {
                    Ok(None)
                }
            },
            None => Ok(None),
        },
        None => Ok(None),
    }
}

} // verus!
