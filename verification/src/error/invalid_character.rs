//! A character that starts no token.
use crate::error::{compose_report, highlight_lines, hits_view, index_after, lines_touched, lines_within_range, next_index, shows_report};
use crate::text::push_char;
use vstd::prelude::*;
use vstd::string::*;

verus! {

/// The lexer met `found`, at character index `idx`, where no token can start.
#[derive(Debug, Clone, Copy)]
pub struct InvalidCharacter {
    pub found: char,
    pub idx: usize,
}

/// The message of an `InvalidCharacter`.
pub open spec fn invalid_character_message(found: char) -> Seq<char> {
    ": found unexpected character '"@ + seq![found] + "'"@
}

impl InvalidCharacter {
    /// The report of this error on `code`: `Syntax Error`, the message, and the line of
    /// the character with the character marked.
    pub fn format(&self, code: &str) -> (r: String)
        ensures
            shows_report(
                "Syntax Error"@,
                invalid_character_message(self.found),
                lines_touched(code@, self.idx..index_after(self.idx), true),
                r@,
            ),
    {
        let lines = lines_within_range(code, self.idx..next_index(self.idx));
        let underlined = highlight_lines(lines.as_slice());
        let mut message = String::from_str(": found unexpected character '");
        push_char(&mut message, self.found);
        message.append("'");
        proof {
            reveal_strlit(": found unexpected character '");
            reveal_strlit("'");
            assert(message@ =~= invalid_character_message(self.found));
        }
        compose_report("Syntax Error", message.as_str(), underlined.as_str(), Ghost(hits_view(lines@)))
    }
}

} // verus!
