use quokka::eval::eval;
use quokka::lexer::Lexer;
use quokka::object::Enviornment;
use quokka::object::Object;
use quokka::parser::Parser;

fn test_eval_helper(input: String) -> Option<Object> {
    let lex = Lexer::new(input);
    let mut prsr = Parser::new(lex);

    let program = prsr.parse_program();
    if program.is_none() {
        panic!("Paniced @ parse_program() - no program exists.")
    }
    let program = program.unwrap();
    let mut env = Enviornment::new();
    let mut evaluated: Option<Object> = Some(Object::Null);
    for stmt in program.statments.iter() {
        evaluated = eval(stmt, &mut env);
        if let Some(Object::ReturnValue(_)) = &evaluated {
            return evaluated;
        }
        if let Some(Object::Error(_)) = &evaluated {
            return evaluated;
        }
    }
    evaluated
}

fn test_int_obj_helper(obj: Object, expected: i32) {
    if let Object::Integer(i) = obj {
        if i != expected {
            panic!("Object has the wrong value. Expected:{}, Got:{}", expected, i);
        }
        return;
    }
    panic!("Object is not an integer.");
}

fn test_bool_obj(obj: Object, expected: bool) {
    if let Object::Boolean(b) = obj {
        if b != expected {
            panic!("Object has the wrong value. Expected:{}, Got:{}", expected, b);
        }
        return;
    }
    panic!("Object is not an Boolean.");
}

fn test_null_obj(obj: Object) -> bool {
    matches!(obj, Object::Null)
}

#[test]
fn test_eval_int_expr() {
    let tests: Vec<(&str, i32)> = vec![
        ("5", 5),
        ("10", 10),
        ("-5", -5),
        ("-10", -10),
        ("5 + 5 + 5 + 5 - 10", 10),
        ("2 * 2 * 2 * 2 * 2", 32),
        ("-50 + 100 -50", 0),
        ("5 * 2 + 10", 20),
        ("5 + 2 * 10", 25),
        ("20 + 2 * -10", 0),
        ("50 / 2 * 2 + 10", 60),
        ("2 * (5 + 10)", 30),
        ("3 * 3 * 3 + 10", 37),
        ("3 * (3 * 3) + 10", 37),
        ("(5 + 10 * 2 + 15 / 3) * 2 + -10", 50),
    ];

    for t_case in tests.iter() {
        let evaluated = test_eval_helper(t_case.0.to_string());
        test_int_obj_helper(evaluated.unwrap(), t_case.1);
    }
}

#[test]
fn test_error_handling() {
    let tests: Vec<(&str, &str)> = vec![
        ("5 + true;", "type mismatch: INTEGER + BOOLEAN"),
        ("5 + true;5;", "type mismatch: INTEGER + BOOLEAN"),
        ("-true", "unknown operator: - BOOLEAN"),
        ("true + false;", "unknown operator: BOOLEAN + BOOLEAN"),
        ("5;true + false;5", "unknown operator: BOOLEAN + BOOLEAN"),
        ("if (10 > 1){true + false;}", "unknown operator: BOOLEAN + BOOLEAN"),
    ];

    for t_case in &tests {
        let evaluated = test_eval_helper(t_case.0.to_string());

        if let Object::Error(err) = evaluated.unwrap() {
            if t_case.1 != err {
                panic!("Unexpected error message, Expected: {}, Got: {}", t_case.1, err);
            }
            continue;
        }
        panic!("Object is not an error object.");
    }
}

#[test]
fn test_return_statments() {
    let tests: Vec<(&str, i32)> = vec![
        ("return 10;", 10),
        ("return 10;9;", 10),
        ("return 2*5;9", 10),
        ("9;return 2*3;9", 6),
        (
            "
            if (10 > 1){
                if(10 > 1){
                    return 10;
                }
            }else
            {return 1;} ",
            10,
        ),
    ];
    for t_case in &tests {
        let evaluated = test_eval_helper(t_case.0.to_string());
        if let Object::ReturnValue(r) = evaluated.unwrap() {
            test_int_obj_helper(*r, t_case.1);
        }
    }
}

#[test]
fn test_if_else_expr() {
    let tests: Vec<(&str, Object)> = vec![
        ("if (true){ 10 }", Object::Integer(10)),
        ("if (false){ 10 }", Object::Null),
        ("if (1){ 10 }", Object::Integer(10)),
        ("if (1 < 2){ 10 }", Object::Integer(10)),
        ("if (1 > 2){ 10 }", Object::Null),
        ("if (1 > 2){ 10 } else { 20 }", Object::Integer(20)),
        ("if (1 < 2){ 10 } else { 20 }", Object::Integer(10)),
    ];

    for t_case in &tests {
        let evaluated = test_eval_helper(t_case.0.to_string());
        if let Object::Integer(i) = t_case.1 {
            test_int_obj_helper(evaluated.unwrap(), i);
            continue;
        }
        if let Object::Null = t_case.1 {
            assert!(test_null_obj(evaluated.unwrap()));
            continue;
        }
        panic!("Object is not null or an integer");
    }
}

#[test]
fn test_eval_bool_expr() {
    let tests: Vec<(&str, bool)> = vec![
        ("true", true),
        ("false", false),
        ("true == true", true),
        ("false == false", true),
        ("true == false", false),
        ("true != false", true),
        ("false != true", true),
        ("(1 < 2) == true", true),
        ("(1 < 2) == false", false),
        ("(1 > 2) == true", false),
        ("(1 > 2) == false", true),
        ("1 < 2", true),
        ("1 > 2", false),
        ("1 < 1", false),
        ("1 > 1", false),
        ("1 == 1", true),
        ("1 != 1", false),
        ("1 == 2", false),
        ("1 != 2", true),
    ];

    for t_case in tests.iter() {
        let evaluated = test_eval_helper(t_case.0.to_string());
        test_bool_obj(evaluated.unwrap(), t_case.1);
    }
}

#[test]
fn test_bang_op() {
    let tests: Vec<(&str, bool)> = vec![
        ("!true", false),
        ("!false", true),
        ("!5", false),
        ("!!false", false),
        ("!!5", true),
    ];

    for t_case in tests.iter() {
        let evaluated = test_eval_helper(t_case.0.to_string());
        test_bool_obj(evaluated.unwrap(), t_case.1);
    }
}
