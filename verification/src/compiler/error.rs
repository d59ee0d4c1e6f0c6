//! Errors of code generation.
use crate::parser::ast::Qualifier;
use crate::parser::cerium_type::{CeriumType, SpecType};
use std::ops::Range;
use vstd::prelude::*;

verus! {

/// A function body whose value has another type than the declared return type.
#[derive(Debug)]
pub struct MismatchedReturnTypeError {
    pub function_name: Qualifier,
    pub expected: Option<CeriumType>,
    pub actual: Option<CeriumType>,
    pub range: Range<usize>,
}

/// An assignment whose value has another type than its target.
#[derive(Debug)]
pub struct MismatchedAssignTypeError {
    pub dst_range: Range<usize>,
    pub dst_type: Option<CeriumType>,
    pub src_range: Range<usize>,
    pub src_type: Option<CeriumType>,
}

/// A dereference of a value that is not a pointer (`found` is its type, if it has one).
#[derive(Debug)]
pub struct InvalidDerefError {
    pub range: Range<usize>,
    pub found: Option<CeriumType>,
}

/// The mathematical value of an optional type.
pub open spec fn option_type_view(t: Option<CeriumType>) -> Option<SpecType> {
    match t {
        Some(t) => Some(t@),
        None => None,
    }
}

} // verus!
