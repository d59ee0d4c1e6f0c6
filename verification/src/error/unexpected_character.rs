//! A character other than the one the lexer required.
use vstd::prelude::*;

verus! {

/// At character index `idx` the lexer required `expected` and found `actual`.
#[derive(Debug, Clone, Copy)]
pub struct UnexpectedCharacter {
    pub expected: char,
    pub actual: char,
    pub idx: usize,
}

} // verus!
