use vit::lexer::{keyword_or_identifier, operator, position_message, tokenize};
use vit::token::TokenType;

fn kinds(src: &str) -> Vec<String> {
    tokenize(src).unwrap().iter().map(|t| format!("{:?}", t.typ)).collect()
}

#[test]
fn keywords_and_type_names_are_recognised() {
    assert!(matches!(keyword_or_identifier("fn".to_string()), TokenType::Fn));
    assert!(matches!(keyword_or_identifier("map".to_string()), TokenType::KwMap));
    assert!(matches!(keyword_or_identifier("f64".to_string()), TokenType::F64));
    assert!(matches!(keyword_or_identifier("void".to_string()), TokenType::Void));
    match keyword_or_identifier("fnord".to_string()) {
        TokenType::Identifier(w) => assert_eq!(w, "fnord"),
        other => panic!("unexpected {:?}", other),
    }
}

#[test]
fn two_character_operators_win_over_one_character_ones() {
    assert!(matches!(operator('=', Some('=')), Some((TokenType::Equal, 2))));
    assert!(matches!(operator('=', Some('x')), Some((TokenType::Assign, 1))));
    assert!(matches!(operator('<', Some('<')), Some((TokenType::LShift, 2))));
    assert!(matches!(operator('.', Some('.')), Some((TokenType::DotDot, 2))));
    assert!(matches!(operator('-', Some('>')), Some((TokenType::Arrow, 2))));
    assert!(matches!(operator('+', None), Some((TokenType::Plus, 1))));
    assert!(operator('@', None).is_none());
    assert!(operator('#', Some('=')).is_none());
}

#[test]
fn a_declaration_is_split_into_tokens() {
    assert_eq!(
        kinds("let x: i32 = 42;"),
        vec!["Let", "Identifier(\"x\")", "Colon", "I32", "Assign", "IntLiteral(42)", "Semicolon", "Eof"]
    );
}

#[test]
fn comments_and_whitespace_separate_tokens() {
    assert_eq!(kinds("a // note\n\tb"), vec!["Identifier(\"a\")", "Identifier(\"b\")", "Eof"]);
}

#[test]
fn float_literals_keep_their_digits() {
    assert_eq!(kinds("3.25"), vec!["FloatText(\"3.25\")", "Eof"]);
    // a range is not a float
    assert_eq!(kinds("0..n"), vec!["IntLiteral(0)", "DotDot", "Identifier(\"n\")", "Eof"]);
}

#[test]
fn string_escapes_are_decoded() {
    assert_eq!(kinds("\"a\\nb\\\"c\""), vec!["StringLiteral(\"a\\nb\\\"c\")", "Eof"]);
}

#[test]
fn tokens_carry_line_and_column() {
    let ts = tokenize("x\n  y").unwrap();
    assert_eq!((ts[0].line, ts[0].column), (1, 1));
    assert_eq!((ts[1].line, ts[1].column), (2, 3));
    assert!(matches!(ts[2].typ, TokenType::Eof));
}

#[test]
fn lexing_errors_name_their_position() {
    assert_eq!(tokenize("let s = \"abc").unwrap_err(), "Unterminated string literal at 1:9");
    assert_eq!(tokenize("x\n @").unwrap_err(), "Unexpected character '@' at 2:2");
    assert_eq!(tokenize("99999999999999999999").unwrap_err(), "Integer literal out of range at 1:1");
    assert_eq!(position_message("oops", 3, 14), "oops at 3:14");
}

#[test]
fn largest_integer_literal_is_read() {
    assert_eq!(kinds("9223372036854775807"), vec!["IntLiteral(9223372036854775807)", "Eof"]);
}

#[test]
fn a_line_break_inside_a_string_moves_the_position() {
    let ts = tokenize("\"a\nb\" x").unwrap();
    assert!(matches!(&ts[0].typ, TokenType::StringLiteral(s) if s == "a\nb"));
    assert_eq!((ts[1].line, ts[1].column), (2, 4));
}

#[test]
fn a_comment_runs_to_the_end_of_its_line() {
    let ts = tokenize("x // y z\nw").unwrap();
    assert_eq!(ts.len(), 3);
    assert!(matches!(&ts[1].typ, TokenType::Identifier(s) if s == "w"));
    assert_eq!((ts[1].line, ts[1].column), (2, 1));
}

#[test]
fn a_float_takes_one_fraction() {
    assert_eq!(kinds("1.5.2"), vec!["FloatText(\"1.5\")", "Dot", "IntLiteral(2)", "Eof"]);
    assert_eq!(kinds("7."), vec!["IntLiteral(7)", "Dot", "Eof"]);
}
