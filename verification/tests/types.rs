use cerium::parser::ast::Qualifier;
use cerium::parser::cerium_type::{format_type, join, CeriumType};

#[test]
fn simple_type_texts() {
    assert_eq!(CeriumType::I16.to_string(), "i16");
    assert_eq!(CeriumType::U16.to_string(), "u16");
    assert_eq!(CeriumType::F16.to_string(), "f16");
    assert_eq!(CeriumType::Any.to_string(), "any");
    assert_eq!(CeriumType::Bool.to_string(), "bool");
    assert_eq!(CeriumType::Struct("point".to_string()).to_string(), "point");
    assert_eq!(CeriumType::Pointer(Box::new(CeriumType::U16)).to_string(), "&u16");
}

#[test]
fn function_type_texts() {
    let f = CeriumType::Function(vec![CeriumType::U16, CeriumType::Bool], Some(Box::new(CeriumType::F16)));
    assert_eq!(f.to_string(), "fn(u16, bool) -> f16");
    let g = CeriumType::Function(Vec::new(), None);
    assert_eq!(g.to_string(), "fn()");
    let h = CeriumType::Pointer(Box::new(CeriumType::Function(vec![CeriumType::I16], None)));
    assert_eq!(h.to_string(), "&fn(i16)");
}

#[test]
fn optional_types() {
    assert_eq!(format_type(&None), "unit");
    assert_eq!(format_type(&Some(CeriumType::Bool)), "bool");
}

#[test]
fn joining() {
    assert_eq!(join(&[], ", "), "");
    assert_eq!(join(&["a".to_string()], ", "), "a");
    assert_eq!(join(&["a".to_string(), "b".to_string(), "c".to_string()], "-"), "a-b-c");
}

#[test]
fn type_equality() {
    let a = CeriumType::Function(vec![CeriumType::U16], Some(Box::new(CeriumType::Bool)));
    let b = a.duplicate();
    assert!(a.equals(&b));
    let c = CeriumType::Function(vec![CeriumType::I16], Some(Box::new(CeriumType::Bool)));
    assert!(!a.equals(&c));
    assert!(!CeriumType::U16.equals(&CeriumType::I16));
    assert!(!CeriumType::Struct("a".to_string()).equals(&CeriumType::Struct("b".to_string())));
}

#[test]
fn qualifiers() {
    let q = Qualifier::from(vec!["a".to_string(), "b".to_string(), "c".to_string()]);
    assert_eq!(q.to_string(), "a::b::c");
    assert_eq!(Qualifier::from_str("x".to_string()).to_string(), "x");
    assert!(q.equals(&q.duplicate()));
    assert!(!q.equals(&Qualifier::from(vec!["a".to_string(), "b".to_string()])));
}
