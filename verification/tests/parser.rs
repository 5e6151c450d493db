use facet_filter::condition::{parse_condition, parse_to, Condition};
use facet_filter::error::{SyntaxFault, SyntaxKind};
use facet_filter::lexer::{chars_of, lex, Comparison, Lexeme, LexemeKind};
use facet_filter::operator::Operator;
use facet_filter::number::Number;
use facet_filter::parser::parse;
use facet_filter::resolve::literals_of;
use facet_filter::token::Token;
use facet_filter::tree::FilterTree;

fn tok(start: usize, end: usize) -> Token {
    Token { start, end }
}

fn lexed(text: &str) -> Vec<Lexeme> {
    lex(&chars_of(text)).unwrap()
}

#[test]
fn condition_negation() {
    let n = tok(3, 5);
    let m = tok(9, 11);
    assert_eq!(Condition::GreaterThan(n).negate(), (Condition::LowerThanOrEqual(n), None));
    assert_eq!(Condition::GreaterThanOrEqual(n).negate(), (Condition::LowerThan(n), None));
    assert_eq!(Condition::Equal(n).negate(), (Condition::NotEqual(n), None));
    assert_eq!(Condition::NotEqual(n).negate(), (Condition::Equal(n), None));
    assert_eq!(Condition::Includes(n).negate(), (Condition::NotIncludes(n), None));
    assert_eq!(Condition::NotIncludes(n).negate(), (Condition::Includes(n), None));
    assert_eq!(Condition::LowerThan(n).negate(), (Condition::GreaterThanOrEqual(n), None));
    assert_eq!(Condition::LowerThanOrEqual(n).negate(), (Condition::GreaterThan(n), None));
    assert_eq!(
        Condition::Between { from: n, to: m }.negate(),
        (Condition::LowerThan(n), Some(Condition::GreaterThan(m)))
    );
}

#[test]
fn operator_negation() {
    let n = Number { key: 7 };
    let m = Number { key: 9 };
    let s = || "ponce".to_string();
    assert_eq!(Operator::GreaterThan(n).negate(), (Operator::LowerThanOrEqual(n), None));
    assert_eq!(Operator::GreaterThanOrEqual(n).negate(), (Operator::LowerThan(n), None));
    assert_eq!(Operator::LowerThan(n).negate(), (Operator::GreaterThanOrEqual(n), None));
    assert_eq!(Operator::LowerThanOrEqual(n).negate(), (Operator::GreaterThan(n), None));
    assert_eq!(Operator::Equal(Some(n), s()).negate(), (Operator::NotEqual(Some(n), s()), None));
    assert_eq!(Operator::NotEqual(None, s()).negate(), (Operator::Equal(None, s()), None));
    assert_eq!(Operator::Includes(None, s()).negate(), (Operator::NotIncludes(None, s()), None));
    assert_eq!(Operator::NotIncludes(None, s()).negate(), (Operator::Includes(None, s()), None));
    assert_eq!(
        Operator::Between(n, m).negate(),
        (Operator::LowerThan(n), Some(Operator::GreaterThan(m)))
    );
    assert_eq!(
        Operator::GeoLowerThan([n, m], n).negate(),
        (Operator::GeoGreaterThan([n, m], n), None)
    );
    assert_eq!(
        Operator::GeoGreaterThan([n, m], n).negate(),
        (Operator::GeoLowerThan([n, m], n), None)
    );
}

#[test]
fn lexemes_of_a_filter() {
    let kinds: Vec<LexemeKind> =
        lexed("NOT a<=1 AND (b!*'x y' OR _geoRadius(1,2)) TO _geoPoint c>d e<f g>=h i!=j k=l m*n")
            .iter()
            .map(|lexeme| lexeme.kind)
            .collect();
    assert_eq!(
        kinds,
        vec![
            LexemeKind::Not,
            LexemeKind::Word,
            LexemeKind::Sign(Comparison::LowerThanOrEqual),
            LexemeKind::Word,
            LexemeKind::And,
            LexemeKind::Open,
            LexemeKind::Word,
            LexemeKind::Sign(Comparison::NotIncludes),
            LexemeKind::Quoted,
            LexemeKind::Or,
            LexemeKind::GeoRadius,
            LexemeKind::Open,
            LexemeKind::Word,
            LexemeKind::Comma,
            LexemeKind::Word,
            LexemeKind::Close,
            LexemeKind::Close,
            LexemeKind::To,
            LexemeKind::GeoPoint,
            LexemeKind::Word,
            LexemeKind::Sign(Comparison::GreaterThan),
            LexemeKind::Word,
            LexemeKind::Word,
            LexemeKind::Sign(Comparison::LowerThan),
            LexemeKind::Word,
            LexemeKind::Word,
            LexemeKind::Sign(Comparison::GreaterThanOrEqual),
            LexemeKind::Word,
            LexemeKind::Word,
            LexemeKind::Sign(Comparison::NotEqual),
            LexemeKind::Word,
            LexemeKind::Word,
            LexemeKind::Sign(Comparison::Equal),
            LexemeKind::Word,
            LexemeKind::Word,
            LexemeKind::Sign(Comparison::Includes),
            LexemeKind::Word,
        ]
    );
}

#[test]
fn lexemes_carry_their_text() {
    let source = "  héllo = 'a b' ";
    let found = lexed(source);
    assert_eq!(found.len(), 3);
    assert_eq!(found[0], Lexeme { kind: LexemeKind::Word, token: tok(2, 7) });
    assert_eq!(found[0].token.fragment(source), "héllo");
    assert_eq!(found[2], Lexeme { kind: LexemeKind::Quoted, token: tok(11, 14) });
    assert_eq!(found[2].token.fragment(source), "a b");
    // In bytes the word starts at 2 and takes 6.
    assert_eq!(found[0].token.span(&chars_of(source)), (2, 6));
    assert_eq!(found[2].token.span(&chars_of(source)), (12, 3));
    // A token that does not lie within the text has no text.
    assert_eq!(tok(3, 99).fragment(source), "");
    assert_eq!(tok(5, 3).fragment(source), "");
    assert_eq!(tok(5, 3).span(&chars_of(source)), (0, 0));
    // Words of the grammar are told by their case.
    assert_eq!(lexed("not")[0].kind, LexemeKind::Word);
    assert_eq!(lexed("ANDY")[0].kind, LexemeKind::Word);
    assert_eq!(lexed("")[..], []);
}

#[test]
fn lexing_stops_at_the_first_fault() {
    assert_eq!(
        lex(&chars_of("a = \"b")),
        Err(SyntaxFault { at: tok(4, 5), kind: SyntaxKind::UnterminatedString })
    );
    assert_eq!(
        lex(&chars_of("a !b 'c")),
        Err(SyntaxFault { at: tok(2, 3), kind: SyntaxKind::UnexpectedCharacter })
    );
    assert_eq!(
        lex(&chars_of("a !")),
        Err(SyntaxFault { at: tok(2, 3), kind: SyntaxKind::UnexpectedCharacter })
    );
}

#[test]
fn a_condition_is_a_key_a_sign_and_a_value() {
    let lexemes = lexed("channel != ponce AND");
    assert_eq!(
        parse_condition(&lexemes, 0, 20),
        Ok(Some((
            FilterTree::Condition { fid: tok(0, 7), op: Condition::NotEqual(tok(11, 16)) },
            3
        )))
    );
    // No sign: no condition.
    assert_eq!(parse_condition(&lexed("timestamp 22 TO 44"), 0, 18), Ok(None));
    assert_eq!(parse_condition(&lexed("= 3"), 0, 3), Ok(None));
    assert_eq!(parse_condition(&lexed("a"), 1, 1), Ok(None));
    // After the sign a value must follow.
    assert_eq!(
        parse_condition(&lexed("a = )"), 0, 5),
        Err(SyntaxFault { at: tok(4, 5), kind: SyntaxKind::ExpectedValue })
    );
    assert_eq!(
        parse_condition(&lexed("a ="), 0, 3),
        Err(SyntaxFault { at: tok(3, 3), kind: SyntaxKind::ExpectedValue })
    );
    // `_geoPoint` takes its parameters into the key.
    assert_eq!(
        parse_condition(&lexed("_geoPoint(12, 16) > 5"), 0, 21),
        Ok(Some((
            FilterTree::Condition { fid: tok(0, 17), op: Condition::GreaterThan(tok(20, 21)) },
            8
        )))
    );
}

#[test]
fn an_interval_is_a_key_a_value_to_and_a_value() {
    assert_eq!(
        parse_to(&lexed("timestamp 22 TO 44"), 0, 18),
        Ok(Some((
            FilterTree::Condition {
                fid: tok(0, 9),
                op: Condition::Between { from: tok(10, 12), to: tok(16, 18) }
            },
            4
        )))
    );
    assert_eq!(parse_to(&lexed("timestamp = 22"), 0, 14), Ok(None));
    assert_eq!(parse_to(&lexed("timestamp 22 44"), 0, 15), Ok(None));
    assert_eq!(
        parse_to(&lexed("timestamp 22 TO"), 0, 15),
        Err(SyntaxFault { at: tok(15, 15), kind: SyntaxKind::ExpectedValue })
    );
}

#[test]
fn trees_of_filters() {
    let is = |fid: Token, value: Token| {
        Box::new(FilterTree::Condition { fid, op: Condition::Equal(value) })
    };
    assert_eq!(
        parse(&chars_of("NOT (a = b OR c = d) AND _geoRadius(1, 2,)")),
        Ok(FilterTree::And(
            Box::new(FilterTree::Not(Box::new(FilterTree::Or(
                is(tok(5, 6), tok(9, 10)),
                is(tok(14, 15), tok(18, 19))
            )))),
            Box::new(FilterTree::GeoRadius {
                span: tok(35, 42),
                parameters: vec![tok(36, 37), tok(39, 40)]
            })
        ))
    );
    // `NOT` stands before an atom only.
    assert_eq!(
        parse(&chars_of("NOT NOT a = b")),
        Err(SyntaxFault { at: tok(4, 7), kind: SyntaxKind::ExpectedCondition })
    );
    // A parameter list that does not close is no parameter list.
    assert_eq!(
        parse(&chars_of("_geoRadius(1, 2")),
        Err(SyntaxFault { at: tok(10, 11), kind: SyntaxKind::ExpectedEndOfInput })
    );
}

#[test]
fn values_that_may_be_numbers() {
    assert_eq!(
        literals_of("a = 1 AND (b 2 TO 3 OR NOT _geoRadius(4, 5, x)) OR c > 'six'"),
        vec!["1", "2", "3", "4", "5", "x", "six"]
    );
    assert_eq!(literals_of("a = "), Vec::<String>::new());
}
