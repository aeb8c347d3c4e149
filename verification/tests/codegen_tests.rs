use inkwell::context::Context;
use vit::ast::{Program, Statement, Type};
use vit::codegen::call::internal_name;
use vit::codegen::{generate, undefined_variable, Codegen, GenerateError};
use vit::lexer::tokenize;
use vit::program::parse;
use vit::token::{Token, TokenType};
use vit::vtype::VType;

fn program(src: &str) -> Program {
    let ts: Vec<Token> = tokenize(src)
        .unwrap()
        .into_iter()
        .map(|t| match t.typ {
            TokenType::FloatText(s) => {
                let v: f64 = s.parse().unwrap();
                Token { typ: TokenType::FloatLiteral(v.to_bits()), line: t.line, column: t.column }
            }
            other => Token { typ: other, line: t.line, column: t.column },
        })
        .collect();
    parse(ts).unwrap()
}

fn build(src: &str) -> Result<String, String> {
    let context = Context::create();
    let mut cg = Codegen::new(&context, "test");
    cg.generate(&program(src))?;
    cg.verify()?;
    Ok(cg.ir_text())
}

#[test]
fn a_small_program_builds_a_valid_module() {
    let ir = build(
        "struct Point { x: i32, y: i32, }\n\
         let g: i32 = 5;\n\
         let total: i64;\n\
         fn sum2(a: i32, b: i32) -> i32 { return a + b; }\n\
         fn main() -> i32 {\n\
           let arr: [i32; 3] = [3, 1, 2];\n\
           sort(arr, 3);\n\
           let m: map[i32, i32];\n\
           map_set(m, 1, 2);\n\
           let p: Point = Point { x: 1, y: 2 };\n\
           let f: f64 = 2.5;\n\
           for i in 0..3 { if arr[i] > 1 { print arr[i]; } else { continue; } }\n\
           while g > 0 { g -= 1; if g == 2 { break; } }\n\
           total = total + 1 as i64;\n\
           print sum2(p.x, p.y), \" \", f, \" \", map_get(m, 1), \" \", sqrt(16);\n\
           let s: str = add(\"a\", \"b\");\n\
           print len(s), len(arr);\n\
           return 0;\n\
         }",
    )
    .unwrap();
    assert!(ir.contains("define i32 @main"));
    assert!(ir.contains("define i32 @sum2"));
    assert!(ir.contains("@printf"));
}

#[test]
fn a_user_function_named_like_a_string_helper_is_shadowed_by_it() {
    // `add` names the string helper `__vit_add`, whatever the program defines
    let err = build("fn add(a: i32, b: i32) -> i32 { return a + b; } fn main() -> i32 { print add(1, 2); return 0; }")
        .unwrap_err();
    assert!(err.contains("__vit_add"));
}

#[test]
fn break_outside_a_loop_is_refused() {
    assert_eq!(build("fn main() -> i32 { break; return 0; }").unwrap_err(), "'break' outside of loop");
    assert_eq!(build("fn main() -> i32 { continue; return 0; }").unwrap_err(), "'continue' outside of loop");
}

#[test]
fn break_and_continue_reach_only_the_innermost_loop() {
    assert!(build("fn main() -> i32 { for i in 0..3 { for j in 0..3 { if j == 1 { break; } } continue; } return 0; }").is_ok());
}

#[test]
fn an_undeclared_variable_is_refused() {
    assert_eq!(build("fn main() -> i32 { x = 1; return 0; }").unwrap_err(), "Undefined variable: x");
    assert_eq!(undefined_variable("y"), "Undefined variable: y");
}

#[test]
fn string_helpers_get_their_internal_names() {
    assert_eq!(internal_name("add"), "__vit_add");
    assert_eq!(internal_name("replace"), "__vit_replace");
    assert_eq!(internal_name("adder"), "adder");
}

#[test]
fn source_types_become_code_types() {
    let context = Context::create();
    let cg = Codegen::new(&context, "types");
    assert!(matches!(cg.convert_type(&Type::I64), Ok(VType::Int(64))));
    assert!(matches!(cg.convert_type(&Type::Bool), Ok(VType::Int(1))));
    assert!(matches!(cg.convert_type(&Type::F64), Ok(VType::Double)));
    assert!(matches!(cg.convert_type(&Type::Str), Ok(VType::Ptr(_))));
    assert!(cg.convert_type(&Type::Struct("Nope".to_string())).is_err());
}

#[test]
fn a_statement_alone_needs_a_loop_for_break() {
    let context = Context::create();
    let mut cg = Codegen::new(&context, "alone");
    assert_eq!(cg.generate_statement(&Statement::Break).unwrap_err(), "'break' outside of loop");
}

#[test]
fn generate_gives_the_checked_ir_or_the_refusal() {
    let ir = match generate(&program("fn main() -> i32 { print 1; return 0; }"), "whole") {
        Ok(ir) => ir,
        Err(_) => panic!("expected a module"),
    };
    assert!(ir.contains("define i32 @main"));
    assert!(ir.contains("whole"));
    match generate(&program("fn main() -> i32 { y = 2; return 0; }"), "bad") {
        Err(GenerateError::Refused(m)) => assert_eq!(m, "Undefined variable: y"),
        _ => panic!("expected a refusal"),
    }
}

#[test]
fn a_declared_variable_is_in_scope_after_its_declaration() {
    assert!(build("fn main() -> i32 { let x: i64 = 1; x = x + 2; print x; return 0; }").is_ok());
    assert_eq!(
        build("fn main() -> i32 { let m: map[bool, i32]; return 0; }").unwrap_err(),
        "Unsupported map type: map[bool, i32]"
    );
    assert_eq!(
        build("fn main() -> i32 { let p: Nowhere; return 0; }").unwrap_err(),
        "Unknown struct type 'Nowhere'"
    );
}

#[test]
fn an_array_literal_is_only_an_initializer() {
    assert_eq!(
        build("fn main() -> i32 { print [1, 2]; return 0; }").unwrap_err(),
        "Array literals can only appear as initializers in variable declarations"
    );
}

#[test]
fn an_http_server_is_built_from_the_route_table() {
    let ir = build(
        "struct Request { method: str, path: str, }\n\
         extern fn http_read(fd: i32) -> str;\n\
         extern fn http_parse(buf: str) -> Request;\n\
         extern fn http_send(fd: i32, s: str) -> i32;\n\
         extern fn http_not_found() -> str;\n\
         extern fn http_request_free(r: str) -> i32;\n\
         extern fn http_route_matches(r: str, route: str) -> i32;\n\
         extern fn http_route_apply(r: str, route: str) -> Request;\n\
         fn hello(req: str) -> str { return \"hi\"; }\n\
         fn main() -> i32 { http_handle(\"GET\", \"/\", hello); http_listen(8080); return 0; }",
    )
    .unwrap();
    assert!(ir.contains("__vit_route_handlers"));
    assert!(ir.contains("http_accept"));
}

#[test]
fn http_builtins_need_the_http_library() {
    assert_eq!(
        build("fn main() -> i32 { http_listen(8080); return 0; }").unwrap_err(),
        "http_listen(): http_read not found - did you import lib/http.vit?"
    );
    assert_eq!(
        build("fn main() -> i32 { http_handle(\"GET\", \"/\", nope); return 0; }").unwrap_err(),
        "http_handle(): unknown function 'nope'"
    );
    assert_eq!(
        build("fn main() -> i32 { http_listen(); return 0; }").unwrap_err(),
        "http_listen() takes 1 argument: port"
    );
}

#[test]
fn builtins_check_their_argument_count() {
    assert_eq!(build("fn main() -> i32 { print sqrt(1, 2); return 0; }").unwrap_err(), "sqrt() takes 1 argument");
    assert_eq!(build("fn main() -> i32 { print max(1); return 0; }").unwrap_err(), "max() takes 2 arguments");
    assert_eq!(
        build("fn main() -> i32 { let m: map[i32, i32]; map_set(m, 1); return 0; }").unwrap_err(),
        "map_set() takes 3 arguments"
    );
    assert_eq!(
        build("fn main() -> i32 { print format(); return 0; }").unwrap_err(),
        "format() requires at least a format string"
    );
    assert_eq!(build("fn main() -> i32 { print nothing(1); return 0; }").unwrap_err(), "Undefined function: nothing");
}

#[test]
fn parameters_and_results_must_have_representations() {
    assert_eq!(build("fn f(p: Nope) -> i32 { return 0; } fn main() -> i32 { return 0; }").unwrap_err(), "Unknown struct 'Nope'");
    assert_eq!(
        build("fn f(a: [Nope; 2]) -> i32 { return 0; } fn main() -> i32 { return 0; }").unwrap_err(),
        "Unknown struct type 'Nope'"
    );
    assert_eq!(
        build("fn f() -> [i32; 2] { return 0; } fn main() -> i32 { return 0; }").unwrap_err(),
        "Functions cannot return this type"
    );
    assert_eq!(
        build("fn f() -> void { return; } fn main() -> i32 { return 0; }").unwrap_err(),
        "void cannot be used as a variable type"
    );
}

#[test]
fn a_field_of_a_struct_is_found_by_name() {
    assert!(build("struct P { x: i32, y: i64, } fn main() -> i32 { let p: P = P { x: 1, y: 2 }; print p.y; return 0; }").is_ok());
    assert_eq!(
        build("struct P { x: i32, } fn main() -> i32 { let p: P = P { x: 1 }; print p.z; return 0; }").unwrap_err(),
        "Struct 'P' has no field 'z'"
    );
    assert_eq!(
        build("fn main() -> i32 { let n: i32 = 1; n.x = 2; return 0; }").unwrap_err(),
        "'n' is not a struct variable"
    );
}

#[test]
fn globals_take_only_literal_initializers() {
    assert_eq!(
        build("let g: i32 = 1 + 2; fn main() -> i32 { return 0; }").unwrap_err(),
        "Global 'g': only literal initializers supported for globals"
    );
    assert_eq!(
        build("let g: [i32; 2] = [1, x]; fn main() -> i32 { return 0; }").unwrap_err(),
        "Global array initializers must be literals"
    );
    assert!(build("let g: [f64; 2] = [1.5, 2.5]; let h: i64; fn main() -> i32 { print g[1], h; return 0; }").is_ok());
    match generate(&program("let g: i32 = f(); fn main() -> i32 { return 0; }"), "g") {
        Err(GenerateError::Refused(m)) => assert_eq!(m, "Global 'g': only literal initializers supported for globals"),
        _ => panic!("expected a refusal"),
    }
}

#[test]
fn elements_need_arrays_and_literals_need_structs() {
    assert_eq!(
        build("fn main() -> i32 { let x: i32 = 1; print x[0]; return 0; }").unwrap_err(),
        "'x' is not an array"
    );
    assert_eq!(build("fn main() -> i32 { print y[0]; return 0; }").unwrap_err(), "Undefined variable: y");
    assert_eq!(
        build("fn main() -> i32 { let q: i32 = 0; print Q { a: 1 }; return q; }").unwrap_err(),
        "Unknown struct 'Q'"
    );
    assert!(build("fn main() -> i32 { let a: [i64; 2]; a[0] = 5 as i64; print a[0] as i32; return 0; }").is_ok());
}

#[test]
fn a_global_literal_of_another_kind_than_its_type_is_refused() {
    assert_eq!(
        build("let g: i32 = 1.5;\nfn main() -> i32 { return 0; }"),
        Err("Global 'g': float literal for non-float type".to_string())
    );
    assert_eq!(
        build("let h: f64 = 2;\nfn main() -> i32 { return 0; }"),
        Err("Global 'h': integer literal for non-integer type".to_string())
    );
}

#[test]
fn a_negative_right_operand_of_a_product_compiles() {
    let ir = build("fn main() -> i32 { let a: i32 = 6; let b: i32 = 7; return a * -b; }").unwrap();
    assert!(ir.contains("mul"));
}

#[test]
fn len_of_an_array_is_its_declared_size() {
    let ir = build("fn main() -> i32 { let a: [i32; 7] = [1, 2, 3, 4, 5, 6, 7]; return len(a); }").unwrap();
    assert!(ir.contains("ret i32 7"));
    assert_eq!(
        build("fn main() -> i32 { return len(1); }").unwrap_err(),
        "len() argument must be a variable"
    );
    assert_eq!(build("fn main() -> i32 { return len(nope); }").unwrap_err(), "Undefined variable: nope");
    assert_eq!(
        build("fn main() -> i32 { let b: bool = true; return len(b); }").unwrap_err(),
        "len() requires an array or str variable"
    );
}

#[test]
fn a_call_passes_its_arguments_to_the_named_function() {
    let ir = build("fn pair(a: i32, b: i64) -> i64 { return b; } fn main() -> i32 { let x: i64 = pair(1, 2); return 0; }")
        .unwrap();
    assert!(ir.contains("call i64 @pair(i32 1, i64 2)"));
}

#[test]
fn main_calls_the_global_initialiser_first() {
    let ir = build("let m: map[i32, i32]; fn main() -> i32 { return 0; }").unwrap();
    let main_at = ir.find("define i32 @main").unwrap();
    let body = &ir[main_at..];
    assert!(body.contains("call void @__vit_global_init()"));
}

#[test]
fn while_and_if_branch_on_their_conditions() {
    let ir = build("fn main() -> i32 { let i: i32 = 0; while i < 3 { if i == 1 { i = i + 2; } else { i = i + 1; } } return i; }")
        .unwrap();
    assert!(ir.contains("while_cond"));
    assert!(ir.contains("br i1"));
    assert!(ir.contains("icmp slt i32"));
    assert!(ir.contains("icmp eq i32"));
}

#[test]
fn the_listening_helper_calls_socket_setsockopt_bind_listen_in_order() {
    let ir = build("fn main() -> i32 { return 0; }").unwrap();
    let at = ir.find("define i32 @__vit_tcp_listen").unwrap();
    let body = &ir[at..];
    let end = body.find("\n}").unwrap();
    let body = &body[..end];
    let s = body.find("@socket(").unwrap();
    let o = body.find("@setsockopt(").unwrap();
    let b = body.find("@bind(").unwrap();
    let l = body.find("@listen(").unwrap();
    assert!(s < o && o < b && b < l);
}

#[test]
fn print_calls_printf_once_per_value() {
    let ir = build("fn main() -> i32 { print 1, 2, 3; return 0; }").unwrap();
    let at = ir.find("define i32 @main").unwrap();
    let body = &ir[at..];
    let end = body.find("\n}").unwrap();
    assert_eq!(body[..end].matches("@printf(").count(), 3);
}

fn function_body<'a>(ir: &'a str, header: &str) -> &'a str {
    let at = ir.find(header).unwrap();
    let body = &ir[at..];
    &body[..body.find("\n}").unwrap()]
}

#[test]
fn the_string_hash_is_djb2_masked_to_a_slot() {
    let ir = build("fn main() -> i32 { return 0; }").unwrap();
    let body = function_body(&ir, "define i32 @__vit_hash_str");
    assert!(body.contains("5381"));
    assert!(body.contains("shl i64"));
    assert!(body.contains("xor i64"));
    assert!(body.contains("4095"));
}

#[test]
fn integer_keys_start_probing_at_a_nonnegative_slot() {
    let ir = build("fn main() -> i32 { return 0; }").unwrap();
    let body = function_body(&ir, "define i32 @__vit_map_i32i32_get");
    assert!(body.matches("srem i32").count() >= 2);
    assert!(body.contains("4096"));
}

#[test]
fn comparators_subtract_less_from_greater() {
    let ir = build("fn main() -> i32 { return 0; }").unwrap();
    let body = function_body(&ir, "define i32 @__vit_cmp_i64");
    assert!(body.contains("icmp sgt i64"));
    assert!(body.contains("icmp slt i64"));
    assert!(body.contains("sub i32"));
    let body = function_body(&ir, "define i32 @__vit_cmp_f64");
    assert!(body.contains("fcmp ogt double"));
    assert!(body.contains("fcmp olt double"));
}

#[test]
fn string_conversions_call_the_c_library() {
    let ir = build("fn main() -> i32 { let n: i32 = str_to_int(\"42\"); let f: f64 = str_to_float(\"2.5\"); return n; }")
        .unwrap();
    let body = function_body(&ir, "define i32 @main");
    assert!(body.contains("call i32 @atoi("));
    assert!(body.contains("call double @atof("));
}

#[test]
fn sort_calls_qsort_with_the_element_comparator() {
    let ir = build("fn main() -> i32 { let a: [i64; 3] = [3 as i64, 1 as i64, 2 as i64]; sort(a, 3); return 0; }").unwrap();
    let body = function_body(&ir, "define i32 @main");
    assert!(body.contains("@qsort("));
    assert!(body.contains("@__vit_cmp_i64"));
}

#[test]
fn min_max_and_abs_pick_by_their_comparisons() {
    let ir = build("fn main() -> i32 { let a: i32 = 1; let b: i32 = 2; print min(a, b), max(a, b), abs(a); return 0; }")
        .unwrap();
    let body = function_body(&ir, "define i32 @main");
    assert!(body.contains("icmp slt i32"));
    assert!(body.contains("icmp sgt i32"));
    assert!(body.contains("icmp sge i32"));
}
