use cerium::compiler::assembly::Instruction;
use cerium::compiler::vars::Vars;
use cerium::error::CompilerError;
use cerium::lexer::Lexer;
use cerium::parser::Parser;
use cerium::parser::ast::{
    Addition, Assignment, Deref, Expression, Iter, Let, Qualifier, RangeAnnotation, Scope, Subtraction,
    TypeAlias,
};
use cerium::parser::cerium_type::CeriumType;

fn name(s: &str) -> Qualifier {
    Qualifier::from_str(s.to_string())
}

fn at(start: usize, end: usize, e: Expression) -> RangeAnnotation<Expression> {
    RangeAnnotation::new(start..end, e)
}

fn var(s: &str) -> Expression {
    Expression::Variable(name(s))
}

fn texts(code: &[Instruction]) -> Vec<String> {
    code.iter().map(|i| i.to_string()).collect()
}

fn pointer_to_u16() -> CeriumType {
    CeriumType::Pointer(Box::new(CeriumType::U16))
}

#[test]
fn constants_need_no_code() {
    let globals = Vec::new();
    let mut vars = Vars::new(&globals, Vec::new());
    let (code, value) = Expression::UnsignedInteger(5).compile(&mut vars).unwrap();
    assert!(code.is_empty());
    let (op, t) = value.unwrap();
    assert_eq!(op.to_string(), "5");
    assert!(matches!(t, CeriumType::U16));
    let (_, value) = Expression::Boolean(true).compile(&mut vars).unwrap();
    let (op, t) = value.unwrap();
    assert_eq!(op.to_string(), "#true");
    assert!(matches!(t, CeriumType::Bool));
}

#[test]
fn variable_value_is_where_it_lives() {
    let globals = Vec::new();
    let mut vars = Vars::new(&globals, Vec::new());
    vars.push(Some(name("a")), CeriumType::I16);
    let (code, value) = var("a").compile(&mut vars).unwrap();
    assert!(code.is_empty());
    assert_eq!(value.unwrap().0.to_string(), "r1");
}

#[test]
fn variable_place_is_a_copy() {
    let globals = Vec::new();
    let mut vars = Vars::new(&globals, Vec::new());
    vars.push(Some(name("a")), CeriumType::I16);
    let (code, value) = var("a").compile_mut(&mut vars).unwrap();
    assert_eq!(texts(&code), vec!["    mov r2 r1"]);
    let (op, t) = value.unwrap();
    assert_eq!(op.to_string(), "r2");
    assert!(matches!(t, CeriumType::I16));
}

#[test]
fn addition_into_a_fresh_slot() {
    let globals = Vec::new();
    let mut vars = Vars::new(&globals, Vec::new());
    vars.push(Some(name("a")), CeriumType::U16);
    let sum = Expression::Addition(Box::new(Addition {
        lhs: at(0, 1, var("a")),
        rhs: at(4, 5, Expression::UnsignedInteger(2)),
    }));
    let (code, value) = sum.compile(&mut vars).unwrap();
    assert_eq!(texts(&code), vec!["    mov r2 r1", "    add r2 2"]);
    let (op, t) = value.unwrap();
    assert_eq!(op.to_string(), "r2");
    assert!(matches!(t, CeriumType::U16));
}

#[test]
fn float_subtraction() {
    let globals = Vec::new();
    let params = vec![(name("x"), CeriumType::F16), (name("y"), CeriumType::F16)];
    let mut vars = Vars::new(&globals, params);
    let diff = Expression::Subtraction(Box::new(Subtraction {
        lhs: at(0, 1, var("x")),
        rhs: at(4, 5, var("y")),
    }));
    let (code, value) = diff.compile(&mut vars).unwrap();
    assert_eq!(texts(&code), vec!["    mov r1 [-4]", "    fsub r1 [-3]"]);
    assert!(matches!(value.unwrap().1, CeriumType::F16));
}

#[test]
fn deref_reads_into_a_fresh_slot() {
    let globals = Vec::new();
    let mut vars = Vars::new(&globals, Vec::new());
    vars.push(Some(name("p")), pointer_to_u16());
    let deref = Expression::Deref(Box::new(Deref { inner: at(1, 2, var("p")) }));
    let (code, value) = deref.compile(&mut vars).unwrap();
    assert_eq!(texts(&code), vec!["    read r2 r1"]);
    let (op, t) = value.unwrap();
    assert_eq!(op.to_string(), "r2");
    assert!(matches!(t, CeriumType::U16));
}

#[test]
fn iter_reads_through_the_iterator() {
    let globals = Vec::new();
    let mut vars = Vars::new(&globals, Vec::new());
    vars.push(Some(name("p")), pointer_to_u16());
    let iter = Expression::Iter(Box::new(Iter { inner: at(1, 2, var("p")) }));
    let (code, value) = iter.compile(&mut vars).unwrap();
    assert_eq!(texts(&code), vec!["    readitr r2 r1"]);
    assert!(matches!(value.unwrap().1, CeriumType::U16));
}

#[test]
fn alias_changes_the_type() {
    let globals = Vec::new();
    let mut vars = Vars::new(&globals, Vec::new());
    let alias = Expression::TypeAlias(Box::new(TypeAlias {
        value: at(0, 1, Expression::UnsignedInteger(7)),
        target_type: RangeAnnotation::new(8..11, CeriumType::I16),
    }));
    let (code, value) = alias.compile(&mut vars).unwrap();
    assert!(code.is_empty());
    let (op, t) = value.unwrap();
    assert_eq!(op.to_string(), "7");
    assert!(matches!(t, CeriumType::I16));
}

fn write_through(target_var: &str, value: Expression) -> Expression {
    Expression::Assignment(Box::new(Assignment {
        target: at(0, 2, Expression::Iter(Box::new(Iter { inner: at(1, 2, var(target_var)) }))),
        value: at(5, 6, value),
    }))
}

#[test]
fn write_through_an_iterator() {
    let globals = Vec::new();
    let mut vars = Vars::new(&globals, Vec::new());
    vars.push(Some(name("p")), pointer_to_u16());
    let scope = Expression::Scope(Box::new(Scope {
        instructions: vec![at(0, 6, write_through("p", Expression::UnsignedInteger(3)))],
        value: Some(at(8, 9, Expression::UnsignedInteger(0))),
    }));
    let code = scope.compile_unit(&mut vars).unwrap();
    assert_eq!(texts(&code), vec!["    writeitr r1 3"]);
    // the scope gives back its slots
    assert_eq!(vars.push(None, CeriumType::U16).to_string(), "r2");
}

#[test]
fn write_of_another_type_fails() {
    let globals = Vec::new();
    let mut vars = Vars::new(&globals, Vec::new());
    vars.push(Some(name("p")), pointer_to_u16());
    match write_through("p", Expression::Boolean(true)).compile_unit(&mut vars) {
        Err(CompilerError::MismatchedAssignTypeError(e)) => {
            assert_eq!(e.dst_range, 1..2);
            assert_eq!(e.src_range, 5..6);
            assert!(matches!(e.dst_type, Some(CeriumType::U16)));
            assert!(matches!(e.src_type, Some(CeriumType::Bool)));
        }
        other => panic!("unexpected {other:?}"),
    }
}

#[test]
fn write_through_a_non_pointer_fails() {
    let globals = Vec::new();
    let mut vars = Vars::new(&globals, Vec::new());
    vars.push(Some(name("a")), CeriumType::U16);
    match write_through("a", Expression::UnsignedInteger(1)).compile_unit(&mut vars) {
        Err(CompilerError::InvalidDerefError(e)) => {
            assert_eq!(e.range, 0..2);
            assert!(matches!(e.found, Some(CeriumType::U16)));
        }
        other => panic!("unexpected {other:?}"),
    }
}

#[test]
fn unused_values_need_no_code() {
    let globals = Vec::new();
    let mut vars = Vars::new(&globals, Vec::new());
    vars.push(Some(name("a")), CeriumType::U16);
    assert!(Expression::UnsignedInteger(4).compile_unit(&mut vars).unwrap().is_empty());
    assert!(var("a").compile_unit(&mut vars).unwrap().is_empty());
}

#[test]
fn declarations_of_a_program() {
    let code = "fn f(a: u16) -> bool { 1 } struct s { x: u16, y: &s } fn g() { 2 } fn f() { 3 }";
    let program = Parser::new(Lexer::new(code)).parse().unwrap();
    let (structs, globals) = program.parse_structure();
    assert_eq!(structs.len(), 1);
    assert_eq!(structs[0].0.to_string(), "s");
    assert_eq!(structs[0].1.len(), 2);
    assert_eq!(structs[0].1[1].1.inner.to_string(), "&s");
    let texts: Vec<(String, String)> = globals.iter().map(|(n, t)| (n.to_string(), t.to_string())).collect();
    // the later `f` replaces the earlier one where it stands
    assert_eq!(texts, vec![("f".to_string(), "fn()".to_string()), ("g".to_string(), "fn()".to_string())]);
    let vars = Vars::new(&globals, Vec::new());
    let (op, t) = vars.find(&name("g")).unwrap();
    assert_eq!(op.to_string(), "g");
    assert_eq!(t.to_string(), "fn()");
}

#[test]
fn unused_values_give_the_code_of_the_value() {
    let globals = Vec::new();
    let mut vars = Vars::new(&globals, Vec::new());
    vars.push(Some(name("a")), CeriumType::U16);
    let sum = Expression::Addition(Box::new(Addition {
        lhs: at(0, 1, var("a")),
        rhs: at(4, 5, Expression::UnsignedInteger(2)),
    }));
    let code = sum.compile_unit(&mut vars).unwrap();
    assert_eq!(texts(&code), vec!["    mov r2 r1", "    add r2 2"]);
    // the slot of the dropped value is released
    assert_eq!(vars.push(None, CeriumType::U16).to_string(), "r2");
}

#[test]
fn constant_into_a_target() {
    let globals = Vec::new();
    let mut vars = Vars::new(&globals, Vec::new());
    let target = vars.push(None, CeriumType::Any);
    let (code, t) = Expression::UnsignedInteger(9).compile_into(&mut vars, target).unwrap();
    assert_eq!(texts(&code), vec!["    mov r1 9"]);
    assert!(matches!(t, Some(CeriumType::U16)));
}

#[test]
fn let_binds_a_slot() {
    let globals = Vec::new();
    let mut vars = Vars::new(&globals, Vec::new());
    let decl = Expression::Let(Box::new(Let {
        name: RangeAnnotation::new(4..5, name("x")),
        value: at(8, 10, Expression::UnsignedInteger(42)),
    }));
    let code = decl.compile_unit(&mut vars).unwrap();
    assert_eq!(texts(&code), vec!["    mov r1 42"]);
    let (op, t) = vars.find(&name("x")).unwrap();
    assert_eq!(op.to_string(), "r1");
    assert!(matches!(t, CeriumType::U16));
}

#[test]
fn constants_declare_nothing() {
    let code = "const c: u16 = 1; fn f() { 2 }";
    let program = Parser::new(Lexer::new(code)).parse().unwrap();
    let (structs, globals) = program.parse_structure();
    assert!(structs.is_empty());
    assert_eq!(globals.len(), 1);
    assert_eq!(globals[0].0.to_string(), "f");
}

#[test]
fn constant_place_is_a_fresh_slot() {
    let globals = Vec::new();
    let mut vars = Vars::new(&globals, Vec::new());
    let (code, value) = Expression::UnsignedInteger(3).compile_mut(&mut vars).unwrap();
    assert_eq!(texts(&code), vec!["    mov r1 3"]);
    let (op, t) = value.unwrap();
    assert_eq!(op.to_string(), "r1");
    assert!(matches!(t, CeriumType::U16));
    let sum = Expression::Addition(Box::new(Addition {
        lhs: at(0, 1, Expression::UnsignedInteger(1)),
        rhs: at(4, 5, Expression::UnsignedInteger(2)),
    }));
    let (code, _) = sum.compile(&mut vars).unwrap();
    assert_eq!(texts(&code), vec!["    mov r2 1", "    add r2 2"]);
}

#[test]
fn unit_code_equals_value_code() {
    let globals = Vec::new();
    let sum = || {
        Expression::Addition(Box::new(Addition {
            lhs: at(0, 1, var("a")),
            rhs: at(4, 5, Expression::UnsignedInteger(2)),
        }))
    };
    let mut first = Vars::new(&globals, Vec::new());
    first.push(Some(name("a")), CeriumType::U16);
    let mut second = Vars::new(&globals, Vec::new());
    second.push(Some(name("a")), CeriumType::U16);
    let (value_code, _) = sum().compile(&mut first).unwrap();
    let unit_code = sum().compile_unit(&mut second).unwrap();
    assert_eq!(texts(&value_code), texts(&unit_code));
    let (constant, _) = Expression::UnsignedInteger(7).compile(&mut first).unwrap();
    assert!(constant.is_empty());
    assert!(Expression::UnsignedInteger(7).compile_unit(&mut second).unwrap().is_empty());
}
