use lib::error::JangError;
use lib::parser::lexer::{lex_stream, tokenize};
use lib::parser::token::keyword::Keyword;
use lib::parser::token::literal::{Literal, NumericLiteral};
use lib::parser::token::operator::Op;
use lib::parser::token::JangToken;

/// A short description of a token, for comparing token streams.
fn describe(token: &JangToken) -> String {
    match token {
        JangToken::Keyword(k) => format!("keyword {:?}", k),
        JangToken::Ident(id) => format!("ident {}", id.as_str()),
        JangToken::Literal(Literal::Numeric(NumericLiteral::Integral(t))) => format!("int {}", t),
        JangToken::Literal(Literal::Numeric(NumericLiteral::Float(t))) => format!("float {}", t),
        JangToken::Operator(o) => format!("op {:?}", o.op),
        JangToken::Joint => "joint".to_string(),
    }
}

fn lex(text: &str) -> Vec<String> {
    match tokenize(text) {
        Ok(tokens) => tokens.iter().map(describe).collect(),
        Err(e) => panic!("lexing failed: {}", e.to_display_string()),
    }
}

fn ident(name: &str) -> String {
    format!("ident {}", name)
}

fn op(o: Op) -> String {
    format!("op {:?}", o)
}

fn keyword(k: Keyword) -> String {
    format!("keyword {:?}", k)
}

#[test]
fn test_single_ident() {
    assert_eq!(lex("my_idenT"), vec![ident("my_idenT")]);
}

#[test]
fn test_many_idents() {
    assert_eq!(lex("  my_\niden\t\t\n T"), vec![ident("my_"), ident("iden"), ident("T")]);
}

#[test]
fn test_joint_ident() {
    assert_eq!(
        lex("lone ( joint("),
        vec![ident("lone"), op(Op::OpenParen), ident("joint"), "joint".to_string(), op(Op::OpenParen)]
    );
}

#[test]
fn test_single_keyword() {
    assert_eq!(lex("fn"), vec![keyword(Keyword::Function)]);
}

#[test]
fn test_keyword_and_ident() {
    assert_eq!(lex("fn my_fn"), vec![keyword(Keyword::Function), ident("my_fn")]);
}

#[test]
fn test_keyword_requires_space() {
    assert_eq!(lex("fn2"), vec![ident("fn2")]);
}

#[test]
fn test_all_keywords() {
    assert_eq!(
        lex("fn let ret if else loop break type"),
        vec![
            keyword(Keyword::Function),
            keyword(Keyword::Let),
            keyword(Keyword::Ret),
            keyword(Keyword::If),
            keyword(Keyword::Else),
            keyword(Keyword::Loop),
            keyword(Keyword::Break),
            keyword(Keyword::Type),
        ]
    );
}

#[test]
fn test_integral_literal() {
    assert_eq!(lex("123"), vec!["int 123".to_string()]);
}

#[test]
fn test_float_literal() {
    assert_eq!(
        lex("1.3 0.56 .92 8. .0 0."),
        vec!["float 1.3", "float 0.56", "float .92", "float 8.", "float .0", "float 0."]
    );
}

#[test]
fn test_lone_dot() {
    assert_eq!(lex("."), vec![op(Op::Dot)]);
}

#[test]
fn test_joint_arrow() {
    assert_eq!(lex("->"), vec![op(Op::Dash), "joint".to_string(), op(Op::GreaterThan)]);
}

#[test]
fn test_joint_close_open_paren() {
    assert_eq!(lex(")("), vec![op(Op::CloseParen), "joint".to_string(), op(Op::OpenParen)]);
}

#[test]
fn test_arrow_with_space() {
    assert_eq!(lex("- >"), vec![op(Op::Dash), op(Op::GreaterThan)]);
}

#[test]
fn test_other_operators() {
    assert_eq!(
        lex("= , ( ) { } - < > : . + * / % |"),
        vec![
            op(Op::Equal),
            op(Op::Comma),
            op(Op::OpenParen),
            op(Op::CloseParen),
            op(Op::OpenBracket),
            op(Op::CloseBracket),
            op(Op::Dash),
            op(Op::LessThan),
            op(Op::GreaterThan),
            op(Op::Colon),
            op(Op::Dot),
            op(Op::Plus),
            op(Op::Star),
            op(Op::Slash),
            op(Op::Percent),
            op(Op::Bar),
        ]
    );
}

#[test]
fn test_unexpected_char() {
    let r = tokenize("#");
    assert!(matches!(r, Err(JangError::Parse(_))));
    if let Err(e) = r {
        assert_eq!(e.to_display_string(), "Parse error: Unexpected symbol '#' (pos: 0)");
    }
}

#[test]
fn lexer_stops_at_first_error() {
    let mut it = lex_stream("a # b");
    assert!(matches!(it.next(), Some(Ok(JangToken::Ident(_)))));
    assert!(matches!(it.next(), Some(Err(JangError::Parse(_)))));
}

#[test]
fn lexer_yields_nothing_after_the_end() {
    let mut it = lex_stream("  x  ");
    assert!(matches!(it.next(), Some(Ok(JangToken::Ident(_)))));
    assert!(it.next().is_none());
    assert!(it.next().is_none());
}

#[test]
fn joint_only_follows_ident_or_operator() {
    let tokens = lex("f(x)(y) a -> b >= c");
    for (k, t) in tokens.iter().enumerate() {
        if t == "joint" {
            assert!(k > 0);
            assert!(tokens[k - 1].starts_with("ident") || tokens[k - 1].starts_with("op"));
        }
    }
    assert_eq!(tokens.iter().filter(|t| *t == "joint").count(), 4);
}

#[test]
fn keywords_are_never_idents() {
    let tokens = lex("type typed fn fns");
    assert_eq!(
        tokens,
        vec![keyword(Keyword::Type), ident("typed"), keyword(Keyword::Function), ident("fns")]
    );
}

#[test]
fn dot_then_digit_is_a_float() {
    assert_eq!(lex("x .5"), vec![ident("x"), "float .5".to_string()]);
    assert_eq!(lex("x. 5"), vec![ident("x"), op(Op::Dot), "int 5".to_string()]);
}
