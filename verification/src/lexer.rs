//! The lexemes of the text of a filter.

use crate::error::{SyntaxFault, SyntaxKind};
use crate::token::Token;
use vstd::prelude::*;

verus! {

/// The sign of a comparison.
#[derive(Clone, Copy, Debug, PartialEq, Eq, Structural)]
pub enum Comparison {
    /// `<=`
    LowerThanOrEqual,
    /// `>=`
    GreaterThanOrEqual,
    /// `!=`
    NotEqual,
    /// `<`
    LowerThan,
    /// `>`
    GreaterThan,
    /// `=`
    Equal,
    /// `*`
    Includes,
    /// `!*`
    NotIncludes,
}

/// What a lexeme is.
#[derive(Clone, Copy, Debug, PartialEq, Eq, Structural)]
pub enum LexemeKind {
    /// A bare word: a run of characters that are no white space and start no
    /// other lexeme.
    Word,
    /// A string between two quotes of one kind, single or double.
    Quoted,
    /// The sign of a comparison.
    Sign(Comparison),
    /// `(`
    Open,
    /// `)`
    Close,
    /// `,`
    Comma,
    /// The word `NOT`.
    Not,
    /// The word `AND`.
    And,
    /// The word `OR`.
    Or,
    /// The word `TO`.
    To,
    /// The word `_geoRadius`.
    GeoRadius,
    /// The word `_geoPoint`.
    GeoPoint,
}

/// A lexeme: its kind and its text. The text of a quoted string is what stands
/// between the quotes.
#[derive(Clone, Copy, Debug, PartialEq, Eq, Structural)]
pub struct Lexeme {
    pub kind: LexemeKind,
    pub token: Token,
}

/// White space separates lexemes and has no other meaning.
pub open spec fn is_space(c: char) -> bool {
    c == ' ' || c == '\t' || c == '\n' || c == '\r'
}

/// The characters that start a lexeme of their own, or a sign.
pub open spec fn is_mark(c: char) -> bool {
    c == '(' || c == ')' || c == ',' || c == '\'' || c == '"' || c == '<' || c == '>' || c == '='
        || c == '!' || c == '*'
}

/// The characters of bare words: all but white space and marks.
pub open spec fn is_word_char(c: char) -> bool {
    !is_space(c) && !is_mark(c)
}

/// Where the run of word characters that starts at `i` ends.
pub open spec fn word_end(source: Seq<char>, i: int) -> int
    decreases source.len() - i,
{
    if 0 <= i < source.len() && is_word_char(source[i]) {
        word_end(source, i + 1)
    } else {
        i
    }
}

/// The first place from `i` on that holds the quote `quote`, or the length of
/// the source where none does.
pub open spec fn quote_end(source: Seq<char>, i: int, quote: char) -> int
    decreases source.len() - i,
{
    if 0 <= i < source.len() && source[i] != quote {
        quote_end(source, i + 1, quote)
    } else {
        i
    }
}

/// The kind of a bare word: a word of the grammar, or a plain word.
pub open spec fn word_kind(text: Seq<char>) -> LexemeKind {
    if text == "NOT"@ {
        LexemeKind::Not
    } else if text == "AND"@ {
        LexemeKind::And
    } else if text == "OR"@ {
        LexemeKind::Or
    } else if text == "TO"@ {
        LexemeKind::To
    } else if text == "_geoRadius"@ {
        LexemeKind::GeoRadius
    } else if text == "_geoPoint"@ {
        LexemeKind::GeoPoint
    } else {
        LexemeKind::Word
    }
}

/// Whether the character after `i` is `c`.
pub open spec fn is_followed_by(source: Seq<char>, i: int, c: char) -> bool {
    i + 1 < source.len() && source[i + 1] == c
}

/// The lexeme that starts at `i`, a place that holds no white space, and the
/// place after it.
pub open spec fn lexeme_at(source: Seq<char>, i: int) -> Result<(Lexeme, int), SyntaxFault>
{
    let c = source[i];
    let one = Token { start: i as usize, end: (i + 1) as usize };
    let two = Token { start: i as usize, end: (i + 2) as usize };
    if c == '(' {
        Ok((Lexeme { kind: LexemeKind::Open, token: one }, i + 1))
    } else if c == ')' {
        Ok((Lexeme { kind: LexemeKind::Close, token: one }, i + 1))
    } else if c == ',' {
        Ok((Lexeme { kind: LexemeKind::Comma, token: one }, i + 1))
    } else if c == '=' {
        Ok((Lexeme { kind: LexemeKind::Sign(Comparison::Equal), token: one }, i + 1))
    } else if c == '*' {
        Ok((Lexeme { kind: LexemeKind::Sign(Comparison::Includes), token: one }, i + 1))
    } else if c == '<' {
        if is_followed_by(source, i, '=') {
            Ok((Lexeme { kind: LexemeKind::Sign(Comparison::LowerThanOrEqual), token: two }, i + 2))
        } else {
            Ok((Lexeme { kind: LexemeKind::Sign(Comparison::LowerThan), token: one }, i + 1))
        }
    } else if c == '>' {
        if is_followed_by(source, i, '=') {
            Ok(
                (
                    Lexeme { kind: LexemeKind::Sign(Comparison::GreaterThanOrEqual), token: two },
                    i + 2,
                ),
            )
        } else {
            Ok((Lexeme { kind: LexemeKind::Sign(Comparison::GreaterThan), token: one }, i + 1))
        }
    } else if c == '!' {
        if is_followed_by(source, i, '=') {
            Ok((Lexeme { kind: LexemeKind::Sign(Comparison::NotEqual), token: two }, i + 2))
        } else if is_followed_by(source, i, '*') {
            Ok((Lexeme { kind: LexemeKind::Sign(Comparison::NotIncludes), token: two }, i + 2))
        } else {
            Err(SyntaxFault { at: one, kind: SyntaxKind::UnexpectedCharacter })
        }
    } else if c == '\'' || c == '"' {
        let close = quote_end(source, i + 1, c);
        if close < source.len() {
            Ok(
                (
                    Lexeme {
                        kind: LexemeKind::Quoted,
                        token: Token { start: (i + 1) as usize, end: close as usize },
                    },
                    close + 1,
                ),
            )
        } else {
            Err(SyntaxFault { at: one, kind: SyntaxKind::UnterminatedString })
        }
    } else {
        let end = word_end(source, i);
        Ok(
            (
                Lexeme {
                    kind: word_kind(source.subrange(i, end)),
                    token: Token { start: i as usize, end: end as usize },
                },
                end,
            ),
        )
    }
}

/// The lexemes of `done` followed by what the rest of the source gives.
pub open spec fn followed_by(done: Seq<Lexeme>, rest: Result<Seq<Lexeme>, SyntaxFault>) -> Result<
    Seq<Lexeme>,
    SyntaxFault,
> {
    match rest {
        Ok(more) => Ok(done + more),
        Err(fault) => Err(fault),
    }
}

/// The lexemes of the source from `i` on, or the first fault in it.
pub open spec fn lexemes_from(source: Seq<char>, i: int) -> Result<Seq<Lexeme>, SyntaxFault>
    decreases source.len() - i,
{
    if i < 0 || i >= source.len() {
        Ok(Seq::empty())
    } else if is_space(source[i]) {
        lexemes_from(source, i + 1)
    } else {
        match lexeme_at(source, i) {
            Ok((lexeme, next)) => if i < next <= source.len() {
                followed_by(seq![lexeme], lexemes_from(source, next))
            } else {
                Ok(seq![lexeme])
            },
            Err(fault) => Err(fault),
        }
    }
}

/// The lexemes of a source, or the first fault in it.
pub open spec fn lexemes(source: Seq<char>) -> Result<Seq<Lexeme>, SyntaxFault> {
    lexemes_from(source, 0)
}

/// The characters of a text.
pub fn chars_of(text: &str) -> (chars: Vec<char>)
    ensures
        chars@ == text@,
{
    let mut chars: Vec<char> = Vec::new();
    for c in it: text.chars()
        invariant
            chars@ == it.seq().subrange(0, it.index() as int),
            it.seq() == text@,
    {
        chars.push(c);
    }
    chars
}

/// Tests whether a character is white space.
fn char_is_space(c: char) -> (r: bool)
    ensures
        r == is_space(c),
{
    c == ' ' || c == '\t' || c == '\n' || c == '\r'
}

/// Tests whether a character belongs to bare words.
fn char_is_word_char(c: char) -> (r: bool)
    ensures
        r == is_word_char(c),
{
    !(char_is_space(c) || c == '(' || c == ')' || c == ',' || c == '\'' || c == '"' || c == '<'
        || c == '>' || c == '=' || c == '!' || c == '*')
}

/// Finds where the run of word characters that starts at `i` ends.
fn find_word_end(chars: &Vec<char>, i: usize) -> (end: usize)
    requires
        i <= chars.len(),
    ensures
        end == word_end(chars@, i as int),
        i <= end <= chars.len(),
{
    let mut j = i;
    while j < chars.len() && char_is_word_char(chars[j])
        invariant
            i <= j <= chars.len(),
            word_end(chars@, i as int) == word_end(chars@, j as int),
        decreases chars.len() - j,
    {
        j += 1;
    }
    j
}

/// Finds the first place from `i` on that holds the quote.
fn find_quote_end(chars: &Vec<char>, i: usize, quote: char) -> (end: usize)
    requires
        i <= chars.len(),
    ensures
        end == quote_end(chars@, i as int, quote),
        i <= end <= chars.len(),
{
    let mut j = i;
    while j < chars.len() && chars[j] != quote
        invariant
            i <= j <= chars.len(),
            quote_end(chars@, i as int, quote) == quote_end(chars@, j as int, quote),
        decreases chars.len() - j,
    {
        j += 1;
    }
    j
}

/// Tests whether the characters from `start` up to `end` are the text.
pub fn span_is(chars: &Vec<char>, start: usize, end: usize, text: &str) -> (r: bool)
    requires
        start <= end <= chars.len(),
    ensures
        r == (chars@.subrange(start as int, end as int) == text@),
{
    let n = text.unicode_len();
    if end - start != n {
        return false;
    }
    let ghost span = chars@.subrange(start as int, end as int);
    let mut k: usize = 0;
    while k < n
        invariant
            0 <= k <= n,
            n == text@.len(),
            start <= end <= chars.len(),
            end - start == n,
            span == chars@.subrange(start as int, end as int),
            forall|j: int| 0 <= j < k ==> span[j] == text@[j],
        decreases n - k,
    {
        if chars[start + k] != text.get_char(k) {
            assert(span[k as int] != text@[k as int]);
            return false;
        }
        k += 1;
    }
    assert(span =~= text@);
    true
}

/// Tells the kind of the bare word from `start` up to `end`.
fn classify_word(chars: &Vec<char>, start: usize, end: usize) -> (kind: LexemeKind)
    requires
        start <= end <= chars.len(),
    ensures
        kind == word_kind(chars@.subrange(start as int, end as int)),
{
    if span_is(chars, start, end, "NOT") {
        LexemeKind::Not
    } else if span_is(chars, start, end, "AND") {
        LexemeKind::And
    } else if span_is(chars, start, end, "OR") {
        LexemeKind::Or
    } else if span_is(chars, start, end, "TO") {
        LexemeKind::To
    } else if span_is(chars, start, end, "_geoRadius") {
        LexemeKind::GeoRadius
    } else if span_is(chars, start, end, "_geoPoint") {
        LexemeKind::GeoPoint
    } else {
        LexemeKind::Word
    }
}

/// Reads the lexeme that starts at `i`.
fn read_lexeme(chars: &Vec<char>, i: usize) -> (r: Result<(Lexeme, usize), SyntaxFault>)
    requires
        i < chars.len(),
        !is_space(chars[i as int]),
    ensures
        match r {
            Ok((lexeme, next)) => lexeme_at(chars@, i as int) == Ok::<_, SyntaxFault>(
                (lexeme, next as int),
            ) && i < next <= chars.len(),
            Err(fault) => lexeme_at(chars@, i as int) == Err::<(Lexeme, int), _>(fault),
        },
{
    let c = chars[i];
    let follower: Option<char> = if i + 1 < chars.len() {
        Some(chars[i + 1])
    } else {
        None
    };
    let one = Token { start: i, end: i + 1 };
    if c == '(' {
        Ok((Lexeme { kind: LexemeKind::Open, token: one }, i + 1))
    } else if c == ')' {
        Ok((Lexeme { kind: LexemeKind::Close, token: one }, i + 1))
    } else if c == ',' {
        Ok((Lexeme { kind: LexemeKind::Comma, token: one }, i + 1))
    } else if c == '=' {
        Ok((Lexeme { kind: LexemeKind::Sign(Comparison::Equal), token: one }, i + 1))
    } else if c == '*' {
        Ok((Lexeme { kind: LexemeKind::Sign(Comparison::Includes), token: one }, i + 1))
    } else if c == '<' || c == '>' || c == '!' {
        let comparison = match follower {
            Some(next) => {
                if next == '=' {
                    if c == '<' {
                        Some(Comparison::LowerThanOrEqual)
                    } else if c == '>' {
                        Some(Comparison::GreaterThanOrEqual)
                    } else {
                        Some(Comparison::NotEqual)
                    }
                } else if next == '*' && c == '!' {
                    Some(Comparison::NotIncludes)
                } else {
                    None
                }
            },
            None => None,
        };
        match comparison {
            Some(comparison) => Ok(
                (
                    Lexeme { kind: LexemeKind::Sign(comparison), token: Token { start: i, end: i + 2 } },
                    i + 2,
                ),
            ),
            None => {
                if c == '<' {
                    Ok((Lexeme { kind: LexemeKind::Sign(Comparison::LowerThan), token: one }, i + 1))
                } else if c == '>' {
                    Ok(
                        (
                            Lexeme { kind: LexemeKind::Sign(Comparison::GreaterThan), token: one },
                            i + 1,
                        ),
                    )
                } else {
                    Err(SyntaxFault { at: one, kind: SyntaxKind::UnexpectedCharacter })
                }
            },
        }
    } else if c == '\'' || c == '"' {
        let close = find_quote_end(chars, i + 1, c);
        if close < chars.len() {
            Ok(
                (
                    Lexeme { kind: LexemeKind::Quoted, token: Token { start: i + 1, end: close } },
                    close + 1,
                ),
            )
        } else {
            Err(SyntaxFault { at: one, kind: SyntaxKind::UnterminatedString })
        }
    } else {
        assert(is_word_char(c));
        assert(word_end(chars@, i as int) == word_end(chars@, i + 1));
        let end = find_word_end(chars, i + 1);
        let kind = classify_word(chars, i, end);
        Ok((Lexeme { kind, token: Token { start: i, end } }, end))
    }
}

/// Cuts the text of a filter into its lexemes.
pub fn lex(chars: &Vec<char>) -> (r: Result<Vec<Lexeme>, SyntaxFault>)
    ensures
        match r {
            Ok(found) => lexemes(chars@) == Ok::<_, SyntaxFault>(found@),
            Err(fault) => lexemes(chars@) == Err::<Seq<Lexeme>, _>(fault),
        },
{
    let mut found: Vec<Lexeme> = Vec::new();
    let mut i: usize = 0;
    assert(followed_by(found@, lexemes_from(chars@, 0)) == lexemes_from(chars@, 0)) by {
        match lexemes_from(chars@, 0) {
            Ok(more) => assert(found@ + more =~= more),
            Err(_) => {},
        }
    }
    while i < chars.len()
        invariant
            0 <= i <= chars.len(),
            lexemes(chars@) == followed_by(found@, lexemes_from(chars@, i as int)),
        decreases chars.len() - i,
    {
        if char_is_space(chars[i]) {
            i += 1;
        } else {
            match read_lexeme(chars, i) {
                Ok((lexeme, next)) => {
                    proof {
                        let rest = lexemes_from(chars@, next as int);
                        match rest {
                            Ok(more) => assert(found@ + (seq![lexeme] + more) =~= found@.push(
                                lexeme,
                            ) + more),
                            Err(_) => {},
                        }
                    }
                    found.push(lexeme);
                    i = next;
                },
                Err(fault) => {
                    return Err(fault);
                },
            }
        }
    }
    assert(found@ + Seq::<Lexeme>::empty() =~= found@);
    Ok(found)
}

} // verus!
