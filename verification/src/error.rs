//! The errors of reading a filter.

use crate::fields::names_of;
use crate::token::{byte_span, Token};
use crate::lexer::chars_of;
use vstd::prelude::*;
use vstd::string::StringExecFns;

verus! {

/// What is wrong with the text of a filter.
#[derive(Clone, Copy, Debug, PartialEq, Eq, Structural)]
pub enum SyntaxKind {
    /// A character that starts nothing: a `!` that neither `=` nor `*` follows.
    UnexpectedCharacter,
    /// A quoted string that its quote does not close.
    UnterminatedString,
    /// A condition was expected.
    ExpectedCondition,
    /// A value was expected.
    ExpectedValue,
    /// A closing parenthesis was expected.
    ExpectedClosingParenthesis,
    /// The filter goes on after its end.
    ExpectedEndOfInput,
    /// A value that must be a number does not read as one.
    InvalidNumber,
    /// `_geoRadius` was not given three arguments.
    GeoRadiusArguments,
    /// A latitude that lies outside of -90 to 90 degrees.
    LatitudeOutOfRange,
    /// A longitude that lies outside of -180 to 180 degrees.
    LongitudeOutOfRange,
}

/// A syntax error and the characters of the source that it is about.
#[derive(Clone, Copy, Debug, PartialEq, Eq, Structural)]
pub struct SyntaxFault {
    pub at: Token,
    pub kind: SyntaxKind,
}

/// The hint that goes with a reserved keyword that stands for a position.
pub open spec fn geo_hint() -> Seq<char> {
    "Use the _geoRadius(latitude, longitude, distance) built-in rule to filter on _geo field coordinates."@
}

/// The message of a syntax error.
pub open spec fn syntax_message(kind: SyntaxKind) -> Seq<char> {
    match kind {
        SyntaxKind::UnexpectedCharacter => "unexpected character"@,
        SyntaxKind::UnterminatedString => "unterminated string"@,
        SyntaxKind::ExpectedCondition => "expected a condition"@,
        SyntaxKind::ExpectedValue => "expected a value"@,
        SyntaxKind::ExpectedClosingParenthesis => "expected a closing parenthesis"@,
        SyntaxKind::ExpectedEndOfInput => "expected the end of the filter"@,
        SyntaxKind::InvalidNumber => "invalid float literal"@,
        SyntaxKind::GeoRadiusArguments => "The _geoRadius filter expect three arguments: _geoRadius(latitude, longitude, radius)"@,
        SyntaxKind::LatitudeOutOfRange => "Latitude must be contained between -90 and 90 degrees."@,
        SyntaxKind::LongitudeOutOfRange => "Longitude must be contained between -180 and 180 degrees."@,
    }
}

impl SyntaxKind {
    /// The message of the error.
    pub fn message(&self) -> (r: String)
        ensures
            r@ == syntax_message(*self),
    {
        match self {
            SyntaxKind::UnexpectedCharacter => String::from_str("unexpected character"),
            SyntaxKind::UnterminatedString => String::from_str("unterminated string"),
            SyntaxKind::ExpectedCondition => String::from_str("expected a condition"),
            SyntaxKind::ExpectedValue => String::from_str("expected a value"),
            SyntaxKind::ExpectedClosingParenthesis => String::from_str(
                "expected a closing parenthesis",
            ),
            SyntaxKind::ExpectedEndOfInput => String::from_str("expected the end of the filter"),
            SyntaxKind::InvalidNumber => String::from_str("invalid float literal"),
            SyntaxKind::GeoRadiusArguments => String::from_str(
                "The _geoRadius filter expect three arguments: _geoRadius(latitude, longitude, radius)",
            ),
            SyntaxKind::LatitudeOutOfRange => String::from_str(
                "Latitude must be contained between -90 and 90 degrees.",
            ),
            SyntaxKind::LongitudeOutOfRange => String::from_str(
                "Longitude must be contained between -180 and 180 degrees.",
            ),
        }
    }
}

/// Why a filter could not be read.
#[derive(Debug, PartialEq)]
pub enum FilterError {
    /// The text is no filter: `offset` and `length` give, in bytes of the
    /// text, the place that the error is about.
    Syntax { offset: usize, length: usize, kind: SyntaxKind },
    /// The field may not be filtered on; `valid_fields` are those that may.
    InvalidAttribute { field: String, valid_fields: Vec<String> },
    /// The field is a reserved keyword.
    ReservedKeyword { field: String, context: Option<String> },
}

/// An error, with its texts as sequences of characters.
pub enum ErrorView {
    Syntax { offset: usize, length: usize, kind: SyntaxKind },
    InvalidAttribute { field: Seq<char>, valid_fields: Seq<Seq<char>> },
    ReservedKeyword { field: Seq<char>, context: Option<Seq<char>> },
}

impl View for FilterError {
    type V = ErrorView;

    open spec fn view(&self) -> ErrorView {
        match *self {
            FilterError::Syntax { offset, length, kind } => ErrorView::Syntax { offset, length, kind },
            FilterError::InvalidAttribute { field, valid_fields } => ErrorView::InvalidAttribute {
                field: field@,
                valid_fields: names_of(valid_fields@),
            },
            FilterError::ReservedKeyword { field, context } => ErrorView::ReservedKeyword {
                field: field@,
                context: match context {
                    Some(text) => Some(text@),
                    None => None,
                },
            },
        }
    }
}

/// The syntax error of kind `kind` about the token `at` of `source`, with the
/// place of the token in bytes.
pub open spec fn syntax_error_at(source: Seq<char>, at: Token, kind: SyntaxKind) -> ErrorView {
    ErrorView::Syntax { offset: byte_span(source, at).0, length: byte_span(source, at).1, kind }
}

/// Makes the syntax error of kind `kind` about the token `at` of `source`.
pub fn syntax_error(source: &str, at: Token, kind: SyntaxKind) -> (r: FilterError)
    ensures
        r@ == syntax_error_at(source@, at, kind),
{
    let chars = chars_of(source);
    let (offset, length) = at.span(&chars);
    FilterError::Syntax { offset, length, kind }
}

/// The names from `from` on, with a comma and a space between them.
pub open spec fn joined(names: Seq<Seq<char>>, from: int) -> Seq<char>
    decreases names.len() - from,
{
    if from < 0 || from >= names.len() {
        Seq::empty()
    } else if from == names.len() - 1 {
        names[from]
    } else {
        names[from] + ", "@ + joined(names, from + 1)
    }
}

/// What an error says.
pub open spec fn message_of(error: ErrorView) -> Seq<char> {
    match error {
        ErrorView::Syntax { kind, .. } => syntax_message(kind),
        ErrorView::InvalidAttribute { field, valid_fields } => "Attribute `"@ + field
            + "` is not filterable. Available filterable attributes are: `"@ + joined(
            valid_fields,
            0,
        ) + "`."@,
        ErrorView::ReservedKeyword { field, context } => "`"@ + field
            + "` is a reserved keyword and thus can't be used as a filter expression."@ + match context {
            Some(hint) => " "@ + hint,
            None => Seq::empty(),
        },
    }
}

/// Joins the names with a comma and a space between them.
fn join_names(names: &Vec<String>) -> (r: String)
    ensures
        r@ == joined(names_of(names@), 0),
{
    let mut text = String::new();
    let n = names.len();
    let mut i: usize = 0;
    let ghost all = names_of(names@);
    assert(text@ + joined(all, 0) =~= joined(all, 0));
    while i < n
        invariant
            0 <= i <= n,
            n == names.len(),
            all == names_of(names@),
            joined(all, 0) == text@ + joined(all, i as int),
        decreases n - i,
    {
        let ghost before = text@;
        text.append(names[i].as_str());
        if i + 1 < n {
            text.append(", ");
            assert(before + (all[i as int] + ", "@ + joined(all, i + 1)) =~= before + all[i as int]
                + ", "@ + joined(all, i + 1));
        } else {
            assert(before + all[i as int] =~= before + all[i as int] + joined(all, i + 1));
        }
        i += 1;
    }
    assert(text@ + Seq::<char>::empty() =~= text@);
    text
}

impl FilterError {
    /// What the error says.
    pub fn message(&self) -> (r: String)
        ensures
            r@ == message_of(self@),
    {
        match self {
            FilterError::Syntax { kind, .. } => kind.message(),
            FilterError::InvalidAttribute { field, valid_fields } => {
                let mut text = String::from_str("Attribute `");
                text.append(field.as_str());
                text.append("` is not filterable. Available filterable attributes are: `");
                text.append(join_names(valid_fields).as_str());
                text.append("`.");
                text
            },
            FilterError::ReservedKeyword { field, context } => {
                let mut text = String::from_str("`");
                text.append(field.as_str());
                text.append(
                    "` is a reserved keyword and thus can't be used as a filter expression.",
                );
                match context {
                    Some(hint) => {
                        text.append(" ");
                        text.append(hint.as_str());
                        assert(text@ =~= message_of(self@));
                    },
                    None => {
                        assert(text@ =~= message_of(self@));
                    },
                }
                text
            },
        }
    }
}

} // verus!
