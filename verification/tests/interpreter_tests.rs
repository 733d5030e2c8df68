use quokka::eval::eval;
use quokka::lexer::Lexer;
use quokka::object::Enviornment;
use quokka::object::Object;
use quokka::parser::Parser;

fn eval_program(input: &str) -> Object {
    let lex = Lexer::new(input.to_string());
    let mut prsr = Parser::new(lex);
    let program = prsr.parse_program().expect("no program");
    assert!(prsr.errors().is_empty(), "parse errors: {:?}", prsr.errors());
    let mut env = Enviornment::new();
    let mut result = Object::Null;
    for stmt in program.statments.iter() {
        result = eval(stmt, &mut env).unwrap();
        if matches!(result, Object::ReturnValue(_) | Object::Error(_)) {
            return result;
        }
    }
    result
}

fn expect_int(input: &str, expected: i32) {
    match eval_program(input) {
        Object::Integer(i) => assert_eq!(i, expected, "on input {}", input),
        other => panic!("expected Integer for {}, got {}", input, other.to_string()),
    }
}

fn expect_error(input: &str, expected: &str) {
    match eval_program(input) {
        Object::Error(m) => assert_eq!(m, expected, "on input {}", input),
        other => panic!("expected Error for {}, got {}", input, other.to_string()),
    }
}

#[test]
fn truthiness_boundary() {
    assert!(matches!(eval_program("if (0) { 10 }"), Object::Null));
    assert!(matches!(eval_program("if (-1) { 10 }"), Object::Null));
    expect_int("if (1) { 10 }", 10);
}

#[test]
fn closures_capture_their_environment() {
    expect_int(
        "let newAdder = fn(x) { fn(y) { x + y; } };
         let addTwo = newAdder(2);
         addTwo(3);",
        5,
    );
}

#[test]
fn let_rebinds_and_the_later_binding_wins() {
    expect_int("let a = 5; let a = a + 2; a;", 7);
    expect_int("let a = 1; let a = 2; a;", 2);
}

#[test]
fn recursion_through_a_global_binding() {
    expect_int(
        "let countdown = fn(n) { if (n < 1) { 0 } else { countdown(n - 1) } };
         countdown(3);",
        0,
    );
}

#[test]
fn division_by_zero_is_an_error() {
    expect_error("5 / 0", "Division by zero is not allowed.");
}

#[test]
fn unbound_identifier_is_an_error() {
    expect_error("foobar", "identifier not found: foobar");
    expect_error("let a = 5; a + b", "identifier not found: b");
}

#[test]
fn calling_a_non_function_is_an_error() {
    expect_error("5(3)", "object is not a function. Got:INTEGER");
    expect_error("true(1)", "object is not a function. Got:BOOLEAN");
}

#[test]
fn argument_count_must_match_parameter_count() {
    expect_error("let f = fn(x){ x }; f(1, 2);", "wrong number of arguments. Expected:1, Got:2");
    expect_error("let f = fn(x, y){ x + y }; f(1);", "wrong number of arguments. Expected:2, Got:1");
}

#[test]
fn integer_arithmetic_wraps_at_the_bounds() {
    expect_int("2147483647 + 1", -2147483648);
    expect_int("0 - 2147483647 - 1", -2147483648);
    expect_int("0 - 2147483647 - 1 - 1", 2147483647);
}

#[test]
fn signed_division_truncates_toward_zero() {
    expect_int("7 / 2", 3);
    expect_int("0 - 7 / 2", -3);
    expect_int("(0 - 7) / 2", -3);
}

#[test]
fn division_keeps_larger_magnitudes_right() {
    expect_int("100 / 9", 11);
    expect_int("2 / (5 + 5)", 0);
}

#[test]
fn function_values_render_their_source() {
    match eval_program("fn(x) { x }") {
        Object::Function(_, _) => {}
        other => panic!("expected a function object, got {}", other.to_string()),
    }
    assert_eq!(eval_program("fn(x, y) { x + y; }").to_string(), "fn(x, y){\n(x + y)\n}");
}

#[test]
fn objects_render_their_printed_form() {
    assert_eq!(eval_program("5 - 12").to_string(), "-7");
    assert_eq!(eval_program("1 < 2").to_string(), "true");
    assert_eq!(eval_program("if (false) { 1 }").to_string(), "null");
    assert_eq!(eval_program("-true").to_string(), "Error: unknown operator: - BOOLEAN");
}

#[test]
fn a_failed_statement_leaves_an_error_and_a_partial_program() {
    let lex = Lexer::new("let x 5;".to_string());
    let mut prsr = Parser::new(lex);
    let program = prsr.parse_program().expect("no program");
    let errors = prsr.errors();
    assert_eq!(
        errors,
        vec![
            "Expected next token: Assign, got: 5".to_string(),
            "Prefix is incorrect, no prefix function to parse current prefix. got: ;".to_string(),
        ]
    );
    assert_eq!(program.statments.len(), 1);
}

#[test]
fn a_missing_let_name_is_reported() {
    let lex = Lexer::new("let = 5;".to_string());
    let mut prsr = Parser::new(lex);
    let _ = prsr.parse_program();
    let errors = prsr.errors();
    assert!(!errors.is_empty());
    assert_eq!(errors[0], "Expected next token: Ident, got: Assign");
}

#[test]
fn nested_calls_and_expressions_as_arguments() {
    expect_int("let add = fn(a, b) { a + b }; add(add(1, 2), 3 * 4);", 15);
    expect_int("fn(x) { x; }(5)", 5);
}

#[test]
fn return_stops_a_function_body_early() {
    expect_int("let f = fn() { return 3; 9; }; f();", 3);
}

#[test]
fn error_stops_a_function_body_early() {
    expect_error("let f = fn() { true + false; 9; }; f();", "unknown operator: BOOLEAN + BOOLEAN");
}

#[test]
fn an_exhausted_evaluation_budget_is_an_error_value() {
    let lex = Lexer::new("1 + 1".to_string());
    let mut prsr = Parser::new(lex);
    let program = prsr.parse_program().expect("no program");
    let stmt = &program.statments[0];

    let mut env = Enviornment::new();
    match quokka::eval::eval_stmt(stmt, &mut env, 0, 2) {
        Object::Error(m) => assert_eq!(m, "evaluation depth limit reached"),
        other => panic!("expected the budget error, got {}", other.to_string()),
    }

    let mut env2 = Enviornment::new();
    match quokka::eval::eval_stmt(stmt, &mut env2, 0, 10) {
        Object::Integer(i) => assert_eq!(i, 2),
        other => panic!("expected Integer, got {}", other.to_string()),
    }
}
