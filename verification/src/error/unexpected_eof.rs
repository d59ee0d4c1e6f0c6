//! The input ended where more was required.
use crate::chars::{char_is_white_space, is_white_space};
use crate::error::{compose_report, highlight_lines, hits_view, index_after, lines_touched, lines_within_range, next_index, shows_report};
use crate::text::{bytes_of_range, chars_of, lemma_utf8_len_split, push_char, str_len, utf8_len};
use vstd::prelude::*;
use vstd::string::*;

verus! {

/// What the lexer still required when the input ended.
#[derive(Debug, Clone, Copy)]
pub enum Expected {
    Character(char),
    Literal,
    Number,
    Identifier,
}

/// The input ended while the lexer still required `expected`.
#[derive(Debug, Clone, Copy)]
pub struct UnexpectedEof {
    pub expected: Expected,
}

/// The text of what was required: a character in single quotes, or the kind of token.
pub open spec fn expected_text(e: Expected) -> Seq<char> {
    match e {
        Expected::Character(c) => seq!['\'', c, '\''],
        Expected::Literal => "literal"@,
        Expected::Number => "number"@,
        Expected::Identifier => "identifier"@,
    }
}

impl Expected {
    /// The text of what was required (see `expected_text`).
    pub fn to_string(&self) -> (r: String)
        ensures
            r@ == expected_text(*self),
    {
        proof {
            reveal_strlit("literal");
            reveal_strlit("number");
            reveal_strlit("identifier");
        }
        match self {
            Expected::Character(c) => {
                let mut r = String::new();
                push_char(&mut r, '\'');
                push_char(&mut r, *c);
                push_char(&mut r, '\'');
                assert(r@ =~= seq!['\'', *c, '\'']);
                r
            },
            Expected::Literal => String::from_str("literal"),
            Expected::Number => String::from_str("number"),
            Expected::Identifier => String::from_str("identifier"),
        }
    }
}

/// The index of the last character of `cs` that is not white space, if there is one.
pub open spec fn last_visible(cs: Seq<char>) -> Option<nat>
    decreases cs.len(),
{
    if cs.len() == 0 {
        None
    } else if !is_white_space(cs.last()) {
        Some((cs.len() - 1) as nat)
    } else {
        last_visible(cs.drop_last())
    }
}

/// Where the end of the input is reported, in bytes: at its last character that is not
/// white space, or just after its end when there is none.
pub open spec fn eof_index(cs: Seq<char>) -> nat {
    match last_visible(cs) {
        Some(i) => utf8_len(cs.subrange(0, i as int)),
        None => utf8_len(cs),
    }
}

/// The message of an `UnexpectedEof`.
pub open spec fn eof_message(e: Expected) -> Seq<char> {
    ": expected "@ + expected_text(e) + ", found nothing"@
}

impl UnexpectedEof {
    /// The report of this error on `code`: `Unexpected Eof Error`, the message, and the
    /// line of the last character that is not white space, with that character marked.
    pub fn format(&self, code: &str) -> (r: String)
        ensures
            shows_report(
                "Unexpected Eof Error"@,
                eof_message(self.expected),
                lines_touched(code@, (eof_index(code@) as usize)..index_after(eof_index(code@) as usize), true),
                r@,
            ),
    {
        let n = code.unicode_len();
        let mut i = n;
        assert(code@.subrange(0, n as int) =~= code@);
        while i > 0 && char_is_white_space(code.get_char(i - 1))
            invariant
                i <= n,
                n == code@.len(),
                last_visible(code@) == last_visible(code@.subrange(0, i as int)),
            decreases i,
        {
            assert(code@.subrange(0, i as int).drop_last() =~= code@.subrange(0, i - 1));
            i = i - 1;
        }
        proof {
            if i == 0 {
                assert(code@.subrange(0, 0) =~= Seq::<char>::empty());
            }
        }
        let cs = chars_of(code);
        let total = str_len(code);
        let k = if i == 0 {
            n
        } else {
            i - 1
        };
        proof {
            lemma_utf8_len_split(code@, 0, k as int);
            assert(code@.subrange(0, 0) =~= Seq::<char>::empty());
            assert(code@.subrange(0, n as int) =~= code@);
        }
        let idx = bytes_of_range(&cs, 0, k);
        let lines = lines_within_range(code, idx..next_index(idx));
        let underlined = highlight_lines(lines.as_slice());
        let mut message = String::from_str(": expected ");
        message.append(self.expected.to_string().as_str());
        message.append(", found nothing");
        proof {
            reveal_strlit(": expected ");
            reveal_strlit(", found nothing");
            assert(message@ =~= eof_message(self.expected));
        }
        compose_report("Unexpected Eof Error", message.as_str(), underlined.as_str(), Ghost(hits_view(lines@)))
    }
}

} // verus!
