use quokka::ast::Expression;
use quokka::ast::Statment;
use quokka::lexer::Lexer;
use quokka::parser::Parser;
use quokka::token::TokenType;

#[derive(Clone, Copy)]
enum Dtype {
    Int(i32),
    Bool(bool),
    Name(&'static str),
}

fn check_parser_errors(err: Vec<String>) {
    if err.len() == 0 {
        return;
    }

    println!("Parser has {} errors.", err.len());

    for msg in err {
        println!("parser error: {}", msg);
    }
    panic!();
}

fn parse_helper(input: &str) -> quokka::ast::Program {
    let lex = Lexer::new(input.to_string());
    let mut prsr = Parser::new(lex);
    let program = prsr.parse_program();
    if program.is_none() {
        panic!("Paniced @ parse_program() - no program exists.")
    }
    program.unwrap()
}

fn test_int_lit(expr: &Expression, value: i32) -> bool {
    if let Expression::Int(num) = expr {
        if num.value != value {
            panic!("Unexpected integer value. expected: {}, got: {}", num.value, value);
        }
        return true;
    }
    panic!("Expression isn't an int literal");
}

fn test_ident(expr: &Expression, val: &str) -> bool {
    let ident = match expr {
        Expression::Identifier(i) => i,
        _ => panic!("expression isn't identifier."),
    };

    if ident.value != val {
        panic!("ident.value not {}. got {}", val, ident.value);
    }
    true
}

fn test_bool_helper(expr: &Expression, value: bool) {
    if let Expression::BoolenExpr(bool_expr) = expr {
        if bool_expr.value != value {
            panic!("Boolen expression is incorrect, Expected: {},Got: {}", value, bool_expr.value);
        }
        return;
    }
    panic!("Expression isn't Boolen.");
}

fn test_lit_expr(expr: &Expression, expected: Dtype) {
    match expected {
        Dtype::Int(v) => {
            test_int_lit(expr, v);
        }
        Dtype::Bool(v) => test_bool_helper(expr, v),
        Dtype::Name(v) => {
            test_ident(expr, v);
        }
    }
}

fn test_infix_helper(expr: &Expression, lhs: Dtype, op: &str, rhs: Dtype) {
    if let Expression::Infix(inf) = expr {
        if inf.operator != op {
            panic!("infix operator is not correct. Expected: {}, Got: {}", op, inf.operator);
        }
        test_lit_expr(&inf.lhs, lhs);
        test_lit_expr(&inf.rhs, rhs);
        return;
    }
    panic!("Expression is not Infix.");
}

#[test]
fn test_let_statments() {
    let input = "
        let x = 5;
        let y = 8;
        let foobar = 83838;
        ";
    let program = parse_helper(input);
    if program.statments.len() != 3 {
        panic!(
            "program.statments does not contain 3 statments, got: {}",
            program.statments.len()
        );
    }
    let tests = vec!["x", "y", "foobar"];

    for (i, val) in tests.iter().enumerate() {
        let stmt = &program.statments[i];
        if let Statment::Let(st) = stmt {
            assert_eq!(st.ident.value, *val);
        } else {
            panic!("Statment isn't a let statment. @ test_let_statments");
        }
    }
}

#[test]
fn test_ident_expr() {
    let input = "
        foobar;
        ";
    let program = parse_helper(input);
    if program.statments.len() != 1 {
        panic!(
            "program.statments does not contain 1 statments, got: {}",
            program.statments.len()
        );
    }

    if let Statment::Expr(expr_stmt) = &program.statments[0] {
        if let Expression::Identifier(idtf) = expr_stmt {
            if idtf.value != "foobar" {
                panic!("ident value not foobar, got:{} ", idtf.value);
            }
            return;
        }
        panic!("statment isn't expression. @test_ident_expr");
    }

    panic!("pancied outside of expression check, @test_ident_expr");
}

#[test]
fn test_bool_expr() {
    let input = "true;";
    let program = parse_helper(input);
    if program.statments.len() != 1 {
        panic!(
            "program.statments does not contain 1 statments, got: {}",
            program.statments.len()
        );
    }

    if let Statment::Expr(expr_stmt) = &program.statments[0] {
        if let Expression::BoolenExpr(bool_expr) = expr_stmt {
            if bool_expr.value != true {
                panic!("Boolen expresion isn't correct, expected: {}, got: {}", true, bool_expr.value);
            }
            assert_eq!(bool_expr.tok_type, TokenType::True);
            return;
        }
        panic!("Expression isn't Boolen expresion");
    }
    panic!("Statment isn't an expression.");
}

#[test]
fn test_int_lit_expr() {
    let input = "
        5;
        ";
    let program = parse_helper(input);
    if program.statments.len() != 1 {
        panic!(
            "program.statments does not contain 1 statments, got: {}",
            program.statments.len()
        );
    }

    if let Statment::Expr(expr_stmt) = &program.statments[0] {
        if let Expression::Int(num) = expr_stmt {
            if num.value != 5 {
                panic!("value != 5 , got:{} ", num.value);
            }

            return;
        }
        panic!("statment isn't expression. @test_int_lit_expr");
    }

    panic!("pancied outside of expression check, @test_int_lit_expr");
}

#[test]
fn test_if_expr() {
    let input = "if (x < y) { x }";
    let program = parse_helper(input);
    if program.statments.len() != 1 {
        panic!(
            "program.statments does not contain 1 statments, got: {}",
            program.statments.len()
        );
    }

    if let Statment::Expr(expr_stmt) = &program.statments[0] {
        if let Expression::If(stmt) = expr_stmt {
            test_infix_helper(&stmt.condition, Dtype::Name("x"), "<", Dtype::Name("y"));

            if stmt.consequence.stmts.len() != 1 {
                panic!("Consequence is not 1 statment. got: {}", stmt.consequence.stmts.len());
            }

            if let Statment::Expr(expr) = &stmt.consequence.stmts[0] {
                if !test_ident(expr, "x") {
                    panic!("Expected ident : {}, but got something else", "x");
                }
            }
            if stmt.alternative.is_some() {
                panic!("stmt.alternative has a value.");
            }
        } else {
            panic!("Expression isn't an if expression.");
        }
    }
}

#[test]
fn test_if_expr_alternative() {
    let input = "if (x < y) { x } else { y }";
    let program = parse_helper(input);
    if program.statments.len() != 1 {
        panic!(
            "program.statments does not contain 1 statments, got: {}",
            program.statments.len()
        );
    }

    if let Statment::Expr(expr_stmt) = &program.statments[0] {
        if let Expression::If(stmt) = expr_stmt {
            test_infix_helper(&stmt.condition, Dtype::Name("x"), "<", Dtype::Name("y"));

            if stmt.consequence.stmts.len() != 1 {
                panic!("Consequence is not 1 statment. got: {}", stmt.consequence.stmts.len());
            }

            if let Statment::Expr(expr) = &stmt.consequence.stmts[0] {
                if !test_ident(expr, "x") {
                    return;
                }
            }
            if let Statment::Expr(expr) = &stmt.alternative.as_ref().unwrap().stmts[0] {
                if !test_ident(expr, "y") {
                    panic!("Expected different identifier in else statment.");
                }
            }
        } else {
            panic!("Expression isn't an if expression.");
        }
    }
}

#[test]
fn test_parse_prefix_expr() {
    let prefix_tests: Vec<(&str, &str, i32)> = vec![("!5;", "!", 5), ("-15", "-", 15)];

    for t_case in prefix_tests.iter() {
        let program = parse_helper(t_case.0);
        if program.statments.len() != 1 {
            panic!(
                "program.statments does not contain 1 statments, got: {}",
                program.statments.len()
            );
        }

        if let Statment::Expr(expr) = &program.statments[0] {
            match expr {
                Expression::Prefix(p_ex) => {
                    if p_ex.operator != t_case.1 {
                        panic!("unexpected operator. expected: {}, got: {}", t_case.1, p_ex.operator);
                    }
                    test_int_lit(&p_ex.rhs, t_case.2);
                }
                _ => panic!("Expression isn't an Prefix Expression "),
            }
        }
    }
}

#[test]
fn test_infix_expr() {
    let infix_tests: Vec<(&str, Dtype, &str, Dtype)> = vec![
        ("5 + 5;", Dtype::Int(5), "+", Dtype::Int(5)),
        ("5 - 5;", Dtype::Int(5), "-", Dtype::Int(5)),
        ("5 * 5;", Dtype::Int(5), "*", Dtype::Int(5)),
        ("5 / 5;", Dtype::Int(5), "/", Dtype::Int(5)),
        ("5 > 5;", Dtype::Int(5), ">", Dtype::Int(5)),
        ("5 < 5;", Dtype::Int(5), "<", Dtype::Int(5)),
        ("5 == 5;", Dtype::Int(5), "==", Dtype::Int(5)),
        ("5 != 5;", Dtype::Int(5), "!=", Dtype::Int(5)),
        ("true == true", Dtype::Bool(true), "==", Dtype::Bool(true)),
        ("true != false", Dtype::Bool(true), "!=", Dtype::Bool(false)),
        ("false == false", Dtype::Bool(false), "==", Dtype::Bool(false)),
    ];
    for t_case in &infix_tests {
        let program = parse_helper(t_case.0);
        if program.statments.len() != 1 {
            panic!(
                "program.statments does not contain 1 statments, got: {}",
                program.statments.len()
            );
        }

        if let Statment::Expr(expr) = &program.statments[0] {
            match expr {
                Expression::Infix(infix) => {
                    if infix.operator != t_case.2 {
                        panic!(
                            "unexpected operator. expected: {}, got: {}",
                            t_case.2, infix.operator
                        );
                    }
                    test_infix_helper(expr, t_case.1, t_case.2, t_case.3);
                }
                _ => panic!("Expression isn't an infix Expression "),
            }
        } else {
            panic!("pancied outside of expression check, @test_infix_expr");
        }
    }
}

#[test]
fn test_op_precedence_parse() {
    let tests: Vec<(&str, &str)> = vec![
        ("-a * b", "((-a) * b)"),
        ("!-a", "(!(-a))"),
        ("a + b + c", "((a + b) + c)"),
        ("a * b * c", "((a * b) * c)"),
        ("a * b / c", "((a * b) / c)"),
        ("a + b / c", "(a + (b / c))"),
        ("a + b - c", "((a + b) - c)"),
        ("a + b * c + d / e - f", "(((a + (b * c)) + (d / e)) - f)"),
        ("3 + 4; -5 * 5", "(3 + 4)((-5) * 5)"),
        ("5 > 4 == 3 < 4", "((5 > 4) == (3 < 4))"),
        ("5 < 4 != 3 > 4", "((5 < 4) != (3 > 4))"),
        ("3 + 4 * 5 == 3 * 1 + 4 * 5", "((3 + (4 * 5)) == ((3 * 1) + (4 * 5)))"),
        ("3 < 5 == true", "((3 < 5) == true)"),
        ("3 > 5 == false", "((3 > 5) == false)"),
        ("true", "true"),
        ("false", "false"),
        ("(5 + 5) * 2", "((5 + 5) * 2)"),
        ("2 / (5 + 5)", "(2 / (5 + 5))"),
        ("-(5 + 5)", "(-(5 + 5))"),
        ("!(true == true)", "(!(true == true))"),
        ("1 + (2 + 3) + 4", "((1 + (2 + 3)) + 4)"),
    ];

    for t_case in &tests {
        let lex = Lexer::new(t_case.0.to_string());
        let mut prsr = Parser::new(lex);
        let program = prsr.parse_program();
        if program.is_none() {
            panic!("Paniced @ parse_program() - no program exists.")
        }
        check_parser_errors(prsr.errors);

        let actual = program.unwrap().to_string();
        if actual != t_case.1 {
            panic!("Expected: {}, got: {}", t_case.1, actual);
        }
    }
}
