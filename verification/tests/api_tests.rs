use quokka::object::Enviornment;
use quokka::object::Obj;
use quokka::object::Object;
use quokka::token::Token;
use quokka::token::TokenType;
use quokka::token::lookup_ident;

#[test]
fn keyword_lookup_distinguishes_keywords_from_names() {
    assert_eq!(lookup_ident("fn"), TokenType::Function);
    assert_eq!(lookup_ident("let"), TokenType::Let);
    assert_eq!(lookup_ident("if"), TokenType::If);
    assert_eq!(lookup_ident("else"), TokenType::Else);
    assert_eq!(lookup_ident("true"), TokenType::True);
    assert_eq!(lookup_ident("false"), TokenType::False);
    assert_eq!(lookup_ident("return"), TokenType::Return);
    assert_eq!(lookup_ident("returns"), TokenType::Ident);
    assert_eq!(lookup_ident("foo"), TokenType::Ident);
}

#[test]
fn tokens_render_their_diagnostic_text() {
    let ident = Token { tok_type: TokenType::Ident, literal: "abc".to_string() };
    assert_eq!(ident.to_string(), "Ident[abc]");
    let num = Token { tok_type: TokenType::Int(12), literal: "12".to_string() };
    assert_eq!(num.to_string(), "Int[12]");
    let neg = Token { tok_type: TokenType::Int(-3), literal: "-3".to_string() };
    assert_eq!(neg.to_string(), "Int[-3]");
    let lparen = Token { tok_type: TokenType::Lparen, literal: "(".to_string() };
    assert_eq!(lparen.to_string(), "(");
    let assign = Token { tok_type: TokenType::Assign, literal: "=".to_string() };
    assert_eq!(assign.to_string(), "Assign");
}

#[test]
fn objects_name_their_runtime_type() {
    assert_eq!(Object::Integer(1).Type(), "INTEGER");
    assert_eq!(Object::Boolean(true).Type(), "BOOLEAN");
    assert_eq!(Object::Null.Type(), "NULL");
    assert_eq!(Object::Error("x".to_string()).Type(), "ERROR");
    assert_eq!(Object::ReturnValue(Box::new(Object::Null)).Type(), "RETURN_VALUE");
}

#[test]
fn the_global_scope_stores_and_returns_bindings() {
    let mut env = Enviornment::new();
    match env.get(&"x".to_string()) {
        Object::Error(m) => assert_eq!(m, "identifier not found: x"),
        _ => panic!("expected an error for an unbound name"),
    }
    env.set("x".to_string(), &Object::Integer(1));
    match env.get(&"x".to_string()) {
        Object::Integer(i) => assert_eq!(i, 1),
        _ => panic!("expected the bound integer"),
    }
    env.set("x".to_string(), &Object::Integer(2));
    match env.get(&"x".to_string()) {
        Object::Integer(i) => assert_eq!(i, 2),
        _ => panic!("expected the rebound integer"),
    }
}

#[test]
fn enclosed_scopes_look_outward_through_their_chain() {
    let mut env = Enviornment::new();
    env.set("x".to_string(), &Object::Integer(7));
    let inner = env.new_enclosed_env(0);
    match env.get_at(inner, &"x".to_string()) {
        Object::Integer(i) => assert_eq!(i, 7),
        _ => panic!("expected the outer binding through the chain"),
    }
    env.set_at(inner, "x".to_string(), &Object::Integer(9));
    match env.get_at(inner, &"x".to_string()) {
        Object::Integer(i) => assert_eq!(i, 9),
        _ => panic!("expected the shadowing binding"),
    }
    match env.get(&"x".to_string()) {
        Object::Integer(i) => assert_eq!(i, 7),
        _ => panic!("expected the outer binding untouched"),
    }
}

#[test]
fn the_smallest_integer_renders_with_its_sign() {
    assert_eq!(Object::Integer(i32::MIN).to_string(), "-2147483648");
    assert_eq!(Object::Integer(i32::MAX).to_string(), "2147483647");
    assert_eq!(Object::Integer(0).to_string(), "0");
}
