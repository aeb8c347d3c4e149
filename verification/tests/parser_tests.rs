use vit::ast::{Program, Type};
use vit::lexer::tokenize;
use vit::parser::Parser;
use vit::program::parse;
use vit::token::{Token, TokenType};

fn settle(tokens: Vec<Token>) -> (Vec<Token>, Vec<(u64, String)>) {
    let mut shown = Vec::new();
    let ts = tokens
        .into_iter()
        .map(|t| match t.typ {
            TokenType::FloatText(s) => {
                let v: f64 = s.parse().unwrap();
                shown.push((v.to_bits(), format!("{}", v)));
                Token { typ: TokenType::FloatLiteral(v.to_bits()), line: t.line, column: t.column }
            }
            other => Token { typ: other, line: t.line, column: t.column },
        })
        .collect();
    (ts, shown)
}

fn program(src: &str) -> Result<(Program, Vec<(u64, String)>), String> {
    let (ts, shown) = settle(tokenize(src)?);
    parse(ts).map(|p| (p, shown))
}

fn listing(src: &str) -> String {
    let (p, shown) = program(src).unwrap();
    p.to_text(&shown)
}

fn body_of_main(expr: &str) -> String {
    let l = listing(&format!("fn main() -> i32 {{ {} }}", expr));
    let start = l.find("{\n").unwrap() + 2;
    let end = l.rfind("}").unwrap();
    l[start..end].trim().to_string()
}

fn parser(src: &str) -> Parser {
    Parser::new(tokenize(src).unwrap())
}

#[test]
fn multiplication_binds_tighter_than_addition() {
    assert_eq!(body_of_main("x = a + b * c;"), "x = (a + (b * c));");
    assert_eq!(body_of_main("x = a * b + c;"), "x = ((a * b) + c);");
}

#[test]
fn operators_of_one_level_group_to_the_left() {
    assert_eq!(body_of_main("x = a - b - c;"), "x = ((a - b) - c);");
    assert_eq!(body_of_main("x = a << 1 & m;"), "x = ((a << 1) & m);");
}

#[test]
fn precedence_runs_or_and_comparison_additive_multiplicative() {
    assert_eq!(
        body_of_main("x = a || b && c == d + e * f;"),
        "x = (a || (b && (c == (d + (e * f)))));"
    );
    assert_eq!(body_of_main("x = a * b < c || d;"), "x = (((a * b) < c) || d);");
}

#[test]
fn unary_applies_to_the_cast() {
    assert_eq!(body_of_main("x = -y as i64;"), "x = (- (y as i64));");
    assert_eq!(body_of_main("x = !a && b;"), "x = ((! a) && b);");
}

#[test]
fn compound_assignment_is_assignment_of_the_operation() {
    assert_eq!(body_of_main("x += 1;"), body_of_main("x = x + 1;"));
    assert_eq!(body_of_main("x %= 7;"), "x = (x % 7);");
    assert_eq!(body_of_main("x -= y * 2;"), "x = (x - (y * 2));");
    // the whole right-hand side is the operand, whatever its operators
    assert_eq!(body_of_main("x *= a + b;"), "x = (x * (a + b));");
}

#[test]
fn statements_are_listed_back() {
    let src = "struct Point { x: i32, y: f64, }\n\
               extern fn strlen(s: str) -> i64;\n\
               let g: i32 = 5;\n\
               fn main() -> i32 {\n\
                 let p: Point = Point { x: 1, y: 2.5 };\n\
                 p.x = 3;\n\
                 for i in 0..10 { if i > 2 { break; } else { continue; } }\n\
                 while g > 0 { g -= 1; }\n\
                 input n: i32;\n\
                 let a: [i32; 3] = [1, 2, 3];\n\
                 input a[0];\n\
                 a[1] = a[0];\n\
                 print \"n = \", n, true;\n\
                 foo(1, 2);\n\
                 return 0;\n\
               }";
    let expected = "struct Point {\n  x: i32,\n  y: f64,\n}\n\n\
                    extern fn strlen(s: str) -> i64;\n\n\
                    let g: i32 = 5;\n\n\
                    fn main() -> i32 {\n\
                    \x20 let p: Point = Point {x: 1, y: 2.5};\n\
                    \x20 p.x = 3;\n\
                    \x20 for i in 0..10 {\n  if (i > 2) {\n  break;\n} else {\n  continue;\n}\n}\n\
                    \x20 while (g > 0) {\n  g = (g - 1);\n}\n\
                    \x20 input n: i32;\n\
                    \x20 let a: [i32; 3] = [1, 2, 3];\n\
                    \x20 input a[0];\n\
                    \x20 a[1] = a[0];\n\
                    \x20 print \"n = \", n, true;\n\
                    \x20 foo(1, 2);\n\
                    \x20 return 0;\n\
                    }\n\n";
    assert_eq!(listing(src), expected);
}

#[test]
fn struct_literal_needs_a_capitalised_name() {
    assert_eq!(body_of_main("let p: P = P { x: 1 };"), "let p: P = P {x: 1};");
    // a lower-case name followed by `{` is not a struct literal
    assert!(program("fn main() -> i32 { if a { return 1; } return 0; }").is_ok());
}

#[test]
fn map_types_and_capacities() {
    assert_eq!(body_of_main("let m: map[str, i32; 64];"), "let m: map[str, i32; 64];");
    assert_eq!(
        program("fn main() -> i32 { let m: map[i32, i32; 48]; return 0; }").unwrap_err(),
        "Map capacity must be a power of 2, got 48 at 1:41"
    );
}

#[test]
fn parse_errors_name_what_was_expected() {
    assert_eq!(program("fn main() -> i32 { return 0 }").unwrap_err(), "Expected Semicolon, got RBrace at 1:29");
    assert_eq!(
        program("print 1;").unwrap_err(),
        "Expected 'fn', 'let', 'extern' or 'struct' at top level, got Print at 1:1"
    );
    assert_eq!(program("fn f(x) -> i32 { }").unwrap_err(), "Expected Colon, got RParen at 1:7");
}

#[test]
fn parser_steps_through_tokens() {
    let mut p = parser("a b");
    assert!(matches!(&p.current().typ, TokenType::Identifier(s) if s == "a"));
    assert!(matches!(p.peek(1).map(|t| &t.typ), Some(TokenType::Identifier(s)) if s == "b"));
    assert!(p.peek(3).is_none());
    assert!(p.peek(usize::MAX).is_none());
    p.advance();
    p.advance();
    assert!(matches!(p.current().typ, TokenType::Eof));
    p.advance();
    assert!(matches!(p.current().typ, TokenType::Eof));
}

#[test]
fn expect_consumes_only_the_expected_kind() {
    let mut p = parser("; x");
    assert!(p.expect(TokenType::Semicolon).is_ok());
    assert_eq!(p.expect(TokenType::Colon).unwrap_err(), "Expected Colon, got Identifier(\"x\") at 1:3");
    // the failed expectation did not move the parser
    assert!(p.expect(TokenType::Identifier(String::new())).is_ok());
}

#[test]
fn types_are_read_back_as_written() {
    let mut p = parser("[map[i64, str]; 4]");
    let t = p.parse_type().unwrap();
    assert_eq!(t.to_text(), "[map[i64, str]; 4]");
    assert!(matches!(p.current().typ, TokenType::Eof));
    let mut q = parser("Point");
    assert!(matches!(q.parse_type().unwrap(), Type::Struct(ref s) if s == "Point"));
    assert_eq!(parser("42").parse_type().unwrap_err(), "Expected type, got IntLiteral(42) at 1:1");
}

#[test]
fn parameters_structs_and_externs() {
    let mut p = parser("a: i32, b: [f64; 2])");
    let ps = p.parse_parameters().unwrap();
    assert_eq!(ps.len(), 2);
    assert_eq!(ps[1].to_text(), "b: [f64; 2]");

    let mut s = parser("struct S { a: i32, b: str }");
    let d = s.parse_struct_def().unwrap();
    assert_eq!(d.to_text(), "struct S {\n  a: i32,\n  b: str,\n}");

    let mut x = parser("extern fn exit(code: i32) -> void;");
    let e = x.parse_extern_function().unwrap();
    assert_eq!(e.to_text(), "extern fn exit(code: i32) -> void;");
}

#[test]
fn global_and_function_listing() {
    let (p, shown) = program("let pi: f64 = 3.5; fn f(x: i32) -> i32 { return x; }").unwrap();
    assert_eq!(p.globals[0].to_text(&shown), "let pi: f64 = 3.5;");
    assert_eq!(p.functions[0].to_text(&shown), "fn f(x: i32) -> i32 {\n  return x;\n}");
    // with no text for its bits, a float is shown by its bits
    assert_eq!(p.globals[0].to_text(&Vec::new()), format!("let pi: f64 = {};", 3.5f64.to_bits()));
}

#[test]
fn a_unary_operand_may_follow_a_multiplicative_operator() {
    assert_eq!(body_of_main("x = a * -b;"), "x = (a * (- b));");
    assert_eq!(body_of_main("x = a / !b;"), "x = (a / (! b));");
    assert_eq!(body_of_main("x = a % -b as i64;"), "x = (a % (- (b as i64)));");
    assert_eq!(body_of_main("x = a * b as i64;"), "x = (a * (b as i64));");
}

#[test]
fn the_map_keyword_is_named_map_in_messages() {
    let mut p = parser("map");
    assert_eq!(p.expect(TokenType::Semicolon), Err("Expected Semicolon, got Map at 1:1".to_string()));
}

#[test]
fn advance_gives_the_token_passed_over() {
    let mut p = parser("a b");
    assert!(matches!(&p.advance().typ, TokenType::Identifier(s) if s == "a"));
    assert!(matches!(&p.current().typ, TokenType::Identifier(s) if s == "b"));
}

#[test]
fn a_type_error_consumes_nothing_before_the_refused_token() {
    let mut p = parser(", i32");
    assert_eq!(p.parse_type().err(), Some("Expected type, got Comma at 1:1".to_string()));
    assert!(matches!(p.current().typ, TokenType::Comma));
    let mut p = parser("[i32 , 3]");
    assert!(p.parse_type().is_err());
    assert!(matches!(p.current().typ, TokenType::Comma));
}
