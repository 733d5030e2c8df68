use quokka::ast::Expression;
use quokka::ast::Identifier;
use quokka::ast::LetStatment;
use quokka::ast::Program;
use quokka::ast::Statment;

#[test]
fn test_to_string() {
    let mut prog = Program { statments: Vec::new() };

    let ident = Identifier { value: "myvar".to_string() };

    let expr = Expression::Identifier(Identifier { value: "anotherVar".to_string() });

    let let_stmt = LetStatment { ident, value: expr };

    prog.statments.push(Statment::Let(let_stmt));

    assert_eq!(prog.to_string(), "let myvar = anotherVar;")
}
