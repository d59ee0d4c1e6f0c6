//! A character literal that does not hold exactly one character.
use crate::error::{compose_report, highlight_lines, hits_view, lines_touched, lines_within_range, shows_report};
use crate::text::{decimal, decimal_text, str_len, utf8_len};
use std::ops::Range;
use vstd::prelude::*;
use vstd::string::*;

verus! {

/// The character literal spanning `indices` holds `literal`, which is not one character.
#[derive(Debug)]
pub struct InvalidCharacterLiteralLength {
    pub indices: Range<usize>,
    pub literal: String,
}

/// The message of an `InvalidCharacterLiteralLength`: the literal, and its length in
/// bytes.
pub open spec fn literal_length_message(literal: Seq<char>) -> Seq<char> {
    ": character literal '"@ + literal + "' has invalid length "@ + decimal_text(utf8_len(literal))
}

impl InvalidCharacterLiteralLength {
    /// The report of this error on `code`: `Invalid Character Literal Length Error`, the
    /// message, and the lines of the literal with the literal marked.
    pub fn format(&self, code: &str) -> (r: String)
        ensures
            shows_report(
                "Invalid Character Literal Length Error"@,
                literal_length_message(self.literal@),
                lines_touched(code@, self.indices, true),
                r@,
            ),
    {
        let lines = lines_within_range(code, self.indices.start..self.indices.end);
        let underlined = highlight_lines(lines.as_slice());
        let mut message = String::from_str(": character literal '");
        message.append(self.literal.as_str());
        message.append("' has invalid length ");
        message.append(decimal(str_len(self.literal.as_str())).as_str());
        proof {
            reveal_strlit(": character literal '");
            reveal_strlit("' has invalid length ");
            assert(message@ =~= literal_length_message(self.literal@));
            assert(self.indices == (self.indices.start..self.indices.end));
        }
        compose_report(
            "Invalid Character Literal Length Error",
            message.as_str(),
            underlined.as_str(),
            Ghost(hits_view(lines@)),
        )
    }
}

} // verus!
