//! The errors that the lexer reports.
use crate::error::invalid_character::{invalid_character_message, InvalidCharacter};
use crate::error::invalid_character_literal_length::{literal_length_message, InvalidCharacterLiteralLength};
use crate::error::unexpected_character::UnexpectedCharacter;
use crate::error::unexpected_eof::{eof_index, eof_message, UnexpectedEof};
use crate::error::{index_after, lines_touched, shows_report};
use std::ops::Range;
use vstd::pervasive::unreached;
use vstd::prelude::*;

verus! {

/// An error of the lexer.
#[derive(Debug)]
pub enum SyntaxError {
    UnexpectedEof(UnexpectedEof),
    UnexpectedCharacter(UnexpectedCharacter),
    InvalidCharacterLiteralLength(InvalidCharacterLiteralLength),
    InvalidCharacter(InvalidCharacter),
}

/// The mathematical value of a `SyntaxError`.
pub enum SpecSyntaxError {
    UnexpectedEof(UnexpectedEof),
    UnexpectedCharacter(UnexpectedCharacter),
    InvalidCharacterLiteralLength(Range<usize>, Seq<char>),
    InvalidCharacter(InvalidCharacter),
}

impl View for SyntaxError {
    type V = SpecSyntaxError;

    open spec fn view(&self) -> SpecSyntaxError {
        match self {
            SyntaxError::UnexpectedEof(e) => SpecSyntaxError::UnexpectedEof(*e),
            SyntaxError::UnexpectedCharacter(e) => SpecSyntaxError::UnexpectedCharacter(*e),
            SyntaxError::InvalidCharacterLiteralLength(e) => SpecSyntaxError::InvalidCharacterLiteralLength(
                e.indices,
                e.literal@,
            ),
            SyntaxError::InvalidCharacter(e) => SpecSyntaxError::InvalidCharacter(*e),
        }
    }
}

impl SyntaxError {
    /// A copy of this error.
    pub fn duplicate(&self) -> (r: SyntaxError)
        ensures
            r == *self,
    {
        match self {
            SyntaxError::UnexpectedEof(e) => SyntaxError::UnexpectedEof(*e),
            SyntaxError::UnexpectedCharacter(e) => SyntaxError::UnexpectedCharacter(*e),
            SyntaxError::InvalidCharacterLiteralLength(e) => SyntaxError::InvalidCharacterLiteralLength(
                InvalidCharacterLiteralLength {
                    indices: Range { start: e.indices.start, end: e.indices.end },
                    literal: e.literal.clone(),
                },
            ),
            SyntaxError::InvalidCharacter(e) => SyntaxError::InvalidCharacter(*e),
        }
    }
}

/// Whether a report of `e` can be made: there is none for an unexpected character.
pub open spec fn syntax_error_reportable(e: SpecSyntaxError) -> bool {
    !(e is UnexpectedCharacter)
}

/// `shown` is the report of `e` on `code`, as the error's own `format` makes it.
pub open spec fn syntax_error_report(e: SpecSyntaxError, code: Seq<char>, shown: Seq<char>) -> bool {
    match e {
        SpecSyntaxError::UnexpectedEof(x) => shows_report(
            "Unexpected Eof Error"@,
            eof_message(x.expected),
            lines_touched(code, (eof_index(code) as usize)..index_after(eof_index(code) as usize), true),
            shown,
        ),
        SpecSyntaxError::InvalidCharacterLiteralLength(indices, literal) => shows_report(
            "Invalid Character Literal Length Error"@,
            literal_length_message(literal),
            lines_touched(code, indices, true),
            shown,
        ),
        SpecSyntaxError::InvalidCharacter(x) => shows_report(
            "Syntax Error"@,
            invalid_character_message(x.found),
            lines_touched(code, x.idx..index_after(x.idx), true),
            shown,
        ),
        SpecSyntaxError::UnexpectedCharacter(_) => false,
    }
}

impl SyntaxError {
    /// The report of this error on `code` (see `syntax_error_report`).
    pub fn format(&self, code: &str) -> (r: String)
        requires
            syntax_error_reportable(self@),
        ensures
            syntax_error_report(self@, code@, r@),
    {
        match self {
            SyntaxError::UnexpectedEof(e) => e.format(code),
            SyntaxError::InvalidCharacterLiteralLength(e) => e.format(code),
            SyntaxError::InvalidCharacter(e) => e.format(code),
            SyntaxError::UnexpectedCharacter(_) => unreached(),
        }
    }
}

} // verus!
