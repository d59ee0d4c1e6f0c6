use cerium::error::CompilerError;
use cerium::lexer::token::Token;
use cerium::lexer::Lexer;
use cerium::parser::ast::{Definition, Expression, Program};
use cerium::parser::cerium_type::CeriumType;
use cerium::parser::{parse_source, stream_has_cast, Parser};

fn parse(code: &str) -> Result<Program, CompilerError> {
    let mut parser = Parser::new(Lexer::new(code));
    parser.parse()
}

#[test]
fn function_definition() {
    let program = parse("fn add(a: u16, b: &u16) -> u16 { a + b }").expect("a program");
    assert_eq!(program.definitions.len(), 1);
    let Definition::Function(f) = &program.definitions[0] else {
        panic!("not a function");
    };
    assert_eq!(f.name.inner.to_string(), "add");
    // an annotated element reads as the element itself
    assert_eq!(f.name.to_string(), "add");
    assert_eq!(f.name.range, 3..6);
    assert_eq!(f.parameters.len(), 2);
    assert_eq!(f.parameters[0].0.inner.to_string(), "a");
    assert!(matches!(f.parameters[0].1.inner, CeriumType::U16));
    assert_eq!(f.parameters[1].1.inner.to_string(), "&u16");
    assert!(matches!(f.return_type.as_ref().map(|t| &t.inner), Some(CeriumType::U16)));
    assert_eq!(f.body.range, 31..40);
    let Expression::Scope(scope) = &f.body.inner else {
        panic!("body is not a scope");
    };
    assert!(scope.instructions.is_empty());
    let value = scope.value.as_ref().expect("a value");
    assert_eq!(value.range, 33..38);
    let Expression::Addition(add) = &value.inner else {
        panic!("not an addition");
    };
    assert!(matches!(&add.lhs.inner, Expression::Variable(q) if q.to_string() == "a"));
    assert!(matches!(&add.rhs.inner, Expression::Variable(q) if q.to_string() == "b"));
}

#[test]
fn operators_associate_to_the_left() {
    let program = parse("fn f() { 1 - 2 - 3 }").expect("a program");
    let Definition::Function(f) = &program.definitions[0] else {
        panic!("not a function");
    };
    let Expression::Scope(scope) = &f.body.inner else {
        panic!("body is not a scope");
    };
    let value = scope.value.as_ref().unwrap();
    assert_eq!(value.range, 9..18);
    let Expression::Subtraction(outer) = &value.inner else {
        panic!("not a subtraction");
    };
    assert_eq!(outer.lhs.range, 9..14);
    assert!(matches!(outer.lhs.inner, Expression::Subtraction(_)));
    assert!(matches!(outer.rhs.inner, Expression::UnsignedInteger(3)));
}

#[test]
fn multiplication_binds_tighter() {
    let program = parse("fn f() { 1 + 2 * 3 }").expect("a program");
    let Definition::Function(f) = &program.definitions[0] else {
        panic!("not a function");
    };
    let Expression::Scope(scope) = &f.body.inner else {
        panic!("body is not a scope");
    };
    let Expression::Addition(add) = &scope.value.as_ref().unwrap().inner else {
        panic!("not an addition");
    };
    assert!(matches!(add.lhs.inner, Expression::UnsignedInteger(1)));
    assert!(matches!(add.rhs.inner, Expression::Multiplication(_)));
}

#[test]
fn struct_and_const() {
    let program = parse("struct point { x: i16, y: i16 } const origin: u16 = 0;").expect("a program");
    assert_eq!(program.definitions.len(), 2);
    let Definition::Struct(s) = &program.definitions[0] else {
        panic!("not a struct");
    };
    assert_eq!(s.name.inner.to_string(), "point");
    assert_eq!(s.attributes.len(), 2);
    assert_eq!(s.attributes[1].0.inner.to_string(), "y");
    let Definition::Const(c) = &program.definitions[1] else {
        panic!("not a const");
    };
    assert_eq!(c.name.inner.to_string(), "origin");
    assert!(matches!(c.value.inner, Expression::UnsignedInteger(0)));
}

#[test]
fn scoped_names() {
    let program = parse("fn a::b() { x::y }").expect("a program");
    let Definition::Function(f) = &program.definitions[0] else {
        panic!("not a function");
    };
    assert_eq!(f.name.inner.to_string(), "a::b");
    assert_eq!(f.name.inner.names, vec!["a".to_string(), "b".to_string()]);
}

#[test]
fn unexpected_token() {
    match parse("fn 5") {
        Err(CompilerError::UnexpectedTokenError(e)) => {
            assert_eq!(e.range, 3..4);
            assert!(matches!(e.found, Token::UnsignedInt(5)));
        }
        other => panic!("unexpected {other:?}"),
    }
}

#[test]
fn unexpected_definition() {
    match parse("let") {
        Err(CompilerError::UnexpectedTokenError(e)) => {
            assert_eq!(e.range, 0..3);
            assert!(matches!(e.found, Token::Let));
        }
        other => panic!("unexpected {other:?}"),
    }
}

#[test]
fn missing_token() {
    assert!(matches!(parse("fn main("), Err(CompilerError::MissingTokenError)));
}

#[test]
fn lexer_error_is_reported() {
    assert!(matches!(parse("fn $"), Err(CompilerError::SyntaxError(_))));
}

#[test]
fn empty_program() {
    let program = parse("  ").expect("a program");
    assert!(program.definitions.is_empty());
}

#[test]
fn source_without_a_cast_is_parsed() {
    let program = parse_source("fn f() { 1 }").expect("no cast").expect("a program");
    assert_eq!(program.definitions.len(), 1);
    assert!(!stream_has_cast(&Lexer::new("fn f() { 1 }")));
}

#[test]
fn source_with_a_cast_is_left_alone() {
    assert!(stream_has_cast(&Lexer::new("fn f() { 1 as u16 }")));
    assert!(parse_source("fn f() { 1 as u16 }").is_none());
}

#[test]
fn source_errors_come_back() {
    assert!(matches!(parse_source("fn f( { 1 }"), Some(Err(_))));
}
