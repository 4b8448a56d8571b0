use transpiler::lexer::{tokenize, Lexer};
use transpiler::token::{Span, Token};

fn kinds(source: &str) -> Vec<Token> {
    tokenize(source).into_iter().map(|(t, _)| t).collect()
}

#[test]
fn keywords_take_priority_over_names() {
    assert_eq!(
        kinds("if iffy else let const while lets"),
        vec![
            Token::If,
            Token::Identifier("iffy".to_string()),
            Token::Else,
            Token::Let,
            Token::Const,
            Token::While,
            Token::Identifier("lets".to_string()),
        ]
    );
}

#[test]
fn console_log_is_one_token() {
    assert_eq!(
        kinds("console.log(x); console"),
        vec![
            Token::ConsoleLog,
            Token::OpenParen,
            Token::Identifier("x".to_string()),
            Token::CloseParen,
            Token::Semicolon,
            Token::Identifier("console".to_string()),
        ]
    );
}

#[test]
fn symbols_are_read() {
    assert_eq!(
        kinds("=:;,(){}[]<>+-*/"),
        vec![
            Token::Equal,
            Token::Colon,
            Token::Semicolon,
            Token::Comma,
            Token::OpenParen,
            Token::CloseParen,
            Token::OpenBrace,
            Token::CloseBrace,
            Token::OpenBracket,
            Token::CloseBracket,
            Token::LessThan,
            Token::GreaterThan,
            Token::Plus,
            Token::Minus,
            Token::Star,
            Token::Slash,
        ]
    );
}

#[test]
fn string_literal_keeps_quotes_and_escapes() {
    assert_eq!(
        kinds(r#""a \"b\" \n" x"#),
        vec![
            Token::StringLiteral(r#""a \"b\" \n""#.to_string()),
            Token::Identifier("x".to_string()),
        ]
    );
}

#[test]
fn unclosed_string_is_passed_over() {
    assert_eq!(kinds("\"abc"), vec![Token::Identifier("abc".to_string())]);
}

#[test]
fn numbers_are_read_as_i32() {
    assert_eq!(
        kinds("0 42 2147483647"),
        vec![Token::Number(0), Token::Number(42), Token::Number(2147483647)]
    );
}

#[test]
fn number_too_large_is_passed_over() {
    assert_eq!(kinds("2147483648 7"), vec![Token::Number(7)]);
}

#[test]
fn unknown_characters_are_passed_over() {
    assert_eq!(
        kinds("@@@ a # b\r"),
        vec![Token::Identifier("a".to_string()), Token::Identifier("b".to_string())]
    );
}

#[test]
fn empty_source_has_no_tokens() {
    assert_eq!(kinds(""), vec![]);
    assert_eq!(kinds(" \t\n"), vec![]);
}

#[test]
fn spans_cover_each_token() {
    let tokens = Lexer::new("let ab = 12;").get_tokens();
    let spans: Vec<Span> = tokens.iter().map(|(_, s)| *s).collect();
    assert_eq!(
        spans,
        vec![
            Span { start: 0, end: 3 },
            Span { start: 4, end: 6 },
            Span { start: 7, end: 8 },
            Span { start: 9, end: 11 },
            Span { start: 11, end: 12 },
        ]
    );
}
