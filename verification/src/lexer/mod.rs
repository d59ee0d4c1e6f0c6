//! The lexer: turns source text into tokens, one at a time.
//!
//! Positions are indices of characters (not bytes) in the source.
pub mod error;
pub mod token;

use crate::chars::{char_is_alnum, char_is_alpha, char_is_digit, char_is_white_space, char_digit_value, digit_value, is_alnum, is_alpha, is_digit, is_white_space};
use crate::error::invalid_character::InvalidCharacter;
use crate::error::invalid_character_literal_length::InvalidCharacterLiteralLength;
use crate::error::unexpected_character::UnexpectedCharacter;
use crate::error::unexpected_eof::{Expected, UnexpectedEof};
use crate::lexer::error::{SpecSyntaxError, SyntaxError};
use crate::lexer::token::{FloatLiteral, SpecFloatLiteral, SpecToken, Token};
use crate::text::{push_char, str_equals, chars_of, string_of};
use std::ops::Range;
use vstd::prelude::*;

verus! {

// ---------------------------------------------------------------------------
// The lexical grammar, as spec functions over the source characters `cs`.
// ---------------------------------------------------------------------------

/// The first index at or after `p` that does not hold white space.
pub open spec fn skip_ws(cs: Seq<char>, p: int) -> int
    decreases cs.len() - p,
{
    if 0 <= p < cs.len() && is_white_space(cs[p]) {
        skip_ws(cs, p + 1)
    } else {
        p
    }
}

/// The character that an escape sequence `\c` stands for.
pub open spec fn unescape(c: char) -> char {
    if c == '0' {
        '\0'
    } else if c == 'n' {
        '\n'
    } else if c == 't' {
        '\t'
    } else if c == 'r' {
        '\r'
    } else {
        c
    }
}

/// The body of a literal that starts at `p` (just after its opening quote) and is
/// closed by an unescaped `delim`: its characters, with escapes resolved, and the
/// index just past the closing `delim`. `None` if the source ends first.
/// `escaped` says that the character before `p` was an unresolved backslash.
pub open spec fn scan_literal(cs: Seq<char>, p: int, delim: char, escaped: bool) -> Option<
    (Seq<char>, int),
>
    decreases cs.len() - p,
{
    if p < 0 || p >= cs.len() {
        None
    } else if escaped {
        match scan_literal(cs, p + 1, delim, false) {
            Some((s, q)) => Some((seq![unescape(cs[p])] + s, q)),
            None => None,
        }
    } else if cs[p] == delim {
        Some((Seq::empty(), p + 1))
    } else if cs[p] == '\\' {
        scan_literal(cs, p + 1, delim, true)
    } else {
        match scan_literal(cs, p + 1, delim, false) {
            Some((s, q)) => Some((seq![cs[p]] + s, q)),
            None => None,
        }
    }
}

/// Puts `a` in front of the text of a literal scan.
pub open spec fn prefixed(a: Seq<char>, o: Option<(Seq<char>, int)>) -> Option<(Seq<char>, int)> {
    match o {
        Some((s, q)) => Some((a + s, q)),
        None => None,
    }
}

/// The end of the run of digits and underscores that starts at `p`.
pub open spec fn scan_digits(cs: Seq<char>, p: int) -> int
    decreases cs.len() - p,
{
    if 0 <= p < cs.len() && (is_digit(cs[p]) || cs[p] == '_') {
        scan_digits(cs, p + 1)
    } else {
        p
    }
}

/// The decimal value of a run of digits and underscores; underscores are ignored.
pub open spec fn decimal_value(s: Seq<char>) -> nat
    decreases s.len(),
{
    if s.len() == 0 {
        0
    } else if is_digit(s.last()) {
        decimal_value(s.drop_last()) * 10 + digit_value(s.last())
    } else {
        decimal_value(s.drop_last())
    }
}

/// The digits of a run of digits and underscores, in order.
pub open spec fn digits_only(s: Seq<char>) -> Seq<char>
    decreases s.len(),
{
    if s.len() == 0 {
        s
    } else if is_digit(s.last()) {
        digits_only(s.drop_last()).push(s.last())
    } else {
        digits_only(s.drop_last())
    }
}

/// The two's-complement `i16` that `n` is congruent to modulo 2^16, negated
/// (with wrap-around) unless `positive`.
pub open spec fn signed_value(n: nat, positive: bool) -> i16 {
    let m = n % 65536;
    let v: int = if m >= 32768 {
        m - 65536
    } else {
        m as int
    };
    if positive {
        v as i16
    } else if v == -32768 {
        -32768i16
    } else {
        (-v) as i16
    }
}

/// The end of the run of letters, digits and underscores that starts at `p`.
pub open spec fn scan_word(cs: Seq<char>, p: int) -> int
    decreases cs.len() - p,
{
    if 0 <= p < cs.len() && (is_alnum(cs[p]) || cs[p] == '_') {
        scan_word(cs, p + 1)
    } else {
        p
    }
}

/// The end of a line comment whose text starts at `p`: the first line break
/// at or after `p`, or the end of the source.
pub open spec fn comment_end(cs: Seq<char>, p: int) -> int
    decreases cs.len() - p,
{
    if 0 <= p < cs.len() && cs[p] != '\n' {
        comment_end(cs, p + 1)
    } else {
        p
    }
}

/// The token that a word stands for: a keyword, or else an identifier.
pub open spec fn keyword_token(w: Seq<char>) -> SpecToken {
    if w == "true"@ {
        SpecToken::True
    } else if w == "false"@ {
        SpecToken::False
    } else if w == "nullptr"@ {
        SpecToken::Nullptr
    } else if w == "const"@ {
        SpecToken::Const
    } else if w == "asm"@ {
        SpecToken::Asm
    } else if w == "fn"@ {
        SpecToken::Fn
    } else if w == "struct"@ {
        SpecToken::Struct
    } else if w == "any"@ {
        SpecToken::Any
    } else if w == "u16"@ {
        SpecToken::U16
    } else if w == "i16"@ {
        SpecToken::I16
    } else if w == "f16"@ {
        SpecToken::F16
    } else if w == "as"@ {
        SpecToken::As
    } else if w == "alias"@ {
        SpecToken::Alias
    } else if w == "bool"@ {
        SpecToken::Bool
    } else if w == "for"@ {
        SpecToken::For
    } else if w == "to"@ {
        SpecToken::To
    } else if w == "while"@ {
        SpecToken::While
    } else if w == "loop"@ {
        SpecToken::Loop
    } else if w == "break"@ {
        SpecToken::Break
    } else if w == "continue"@ {
        SpecToken::Continue
    } else if w == "iter"@ {
        SpecToken::Iter
    } else if w == "let"@ {
        SpecToken::Let
    } else if w == "if"@ {
        SpecToken::If
    } else if w == "else"@ {
        SpecToken::Else
    } else {
        SpecToken::Ident(w)
    }
}

/// What one call of the lexer does from a given position.
pub enum LexStep {
    /// Only white space is left: no token.
    End,
    /// A token or an error, and the position where the lexer stands after it.
    Item(Result<(Range<usize>, SpecToken), SpecSyntaxError>, int),
}

/// A token spanning `start .. end`, after which the lexer stands at `next`.
pub open spec fn token_at(start: int, end: int, t: SpecToken, next: int) -> LexStep {
    LexStep::Item(Ok((Range { start: start as usize, end: end as usize }, t)), next)
}

/// An error after which the lexer stands at `next`.
pub open spec fn error_at(e: SpecSyntaxError, next: int) -> LexStep {
    LexStep::Item(Err(e), next)
}

/// A character literal starting with the quote at `p`: the quoted text, then one
/// more quote.
pub open spec fn char_step(cs: Seq<char>, p: int) -> LexStep {
    match scan_literal(cs, p + 1, '\'', false) {
        None => error_at(
            SpecSyntaxError::UnexpectedEof(UnexpectedEof { expected: Expected::Literal }),
            cs.len() as int,
        ),
        Some((content, q)) => if q >= cs.len() {
            error_at(
                SpecSyntaxError::UnexpectedEof(
                    UnexpectedEof { expected: Expected::Character('\'') },
                ),
                q,
            )
        } else if cs[q] != '\'' {
            error_at(
                SpecSyntaxError::UnexpectedCharacter(
                    UnexpectedCharacter { expected: '\'', actual: cs[q], idx: q as usize },
                ),
                q + 1,
            )
        } else if content.len() == 1 {
            token_at(p, q + 1, SpecToken::CharLiteral(content[0]), q + 1)
        } else {
            error_at(
                SpecSyntaxError::InvalidCharacterLiteralLength(
                    Range { start: p as usize, end: (q + 1) as usize },
                    content,
                ),
                q + 1,
            )
        },
    }
}

/// A string literal starting with the double quote at `p`: text closed by a
/// single quote, then a double quote.
pub open spec fn string_step(cs: Seq<char>, p: int) -> LexStep {
    match scan_literal(cs, p + 1, '\'', false) {
        None => error_at(
            SpecSyntaxError::UnexpectedEof(UnexpectedEof { expected: Expected::Literal }),
            cs.len() as int,
        ),
        Some((content, q)) => if q >= cs.len() {
            error_at(
                SpecSyntaxError::UnexpectedEof(UnexpectedEof { expected: Expected::Character('"') }),
                q,
            )
        } else if cs[q] != '"' {
            error_at(
                SpecSyntaxError::UnexpectedCharacter(
                    UnexpectedCharacter { expected: '"', actual: cs[q], idx: q as usize },
                ),
                q + 1,
            )
        } else {
            token_at(p, q + 1, SpecToken::String(content), q + 1)
        },
    }
}

/// A number, or a lone sign, starting at `p`.
pub open spec fn number_step(cs: Seq<char>, p: int) -> LexStep {
    let signed = cs[p] == '+' || cs[p] == '-';
    let positive = cs[p] == '+';
    let p1 = if signed {
        p + 1
    } else {
        p
    };
    if signed && (p1 >= cs.len() || !is_digit(cs[p1])) {
        if positive {
            token_at(p, p + 1, SpecToken::Plus, p1)
        } else if p1 < cs.len() && cs[p1] == '>' {
            token_at(p, p + 2, SpecToken::Arrow, p1 + 1)
        } else {
            token_at(p, p + 1, SpecToken::Minus, p1)
        }
    } else {
        let p2 = scan_digits(cs, p1);
        let whole = decimal_value(cs.subrange(p1, p2));
        if p2 < cs.len() && cs[p2] == '.' {
            let p3 = scan_digits(cs, p2 + 1);
            let end = if p3 > p2 + 1 {
                p3
            } else {
                p2
            };
            let f = SpecFloatLiteral {
                whole: (whole % 0x1_0000_0000) as u32,
                fraction: digits_only(cs.subrange(p2 + 1, p3)),
            };
            token_at(p, end, SpecToken::Float(f), p3)
        } else if signed {
            token_at(p, p2, SpecToken::SignedInt(signed_value(whole, positive)), p2)
        } else {
            token_at(p, p2, SpecToken::UnsignedInt((whole % 65536) as u16), p2)
        }
    }
}

/// A keyword or identifier starting at `p`.
pub open spec fn ident_step(cs: Seq<char>, p: int) -> LexStep {
    let q = scan_word(cs, p);
    token_at(p, q, keyword_token(cs.subrange(p, q)), q)
}

/// The operator of one or two characters starting at `p`, or an error for a
/// character that starts no token. (Line comments are handled by `lex_step`.)
pub open spec fn operator_step(cs: Seq<char>, p: int) -> LexStep {
    let c = cs[p];
    let has_next = p + 1 < cs.len();
    let n = cs[p + 1];
    if c == '+' {
        token_at(p, p + 1, SpecToken::Plus, p + 1)
    } else if c == '-' {
        if has_next && n == '>' {
            token_at(p, p + 2, SpecToken::Arrow, p + 2)
        } else {
            token_at(p, p + 1, SpecToken::Minus, p + 1)
        }
    } else if c == '*' {
        token_at(p, p + 1, SpecToken::Asterisk, p + 1)
    } else if c == '/' {
        token_at(p, p + 1, SpecToken::Slash, p + 1)
    } else if c == '!' {
        if has_next && n == '=' {
            token_at(p, p + 2, SpecToken::NotEquals, p + 2)
        } else {
            token_at(p, p + 1, SpecToken::Bang, p + 1)
        }
    } else if c == '(' {
        token_at(p, p + 1, SpecToken::LParen, p + 1)
    } else if c == ')' {
        token_at(p, p + 1, SpecToken::RParen, p + 1)
    } else if c == '[' {
        token_at(p, p + 1, SpecToken::LBracket, p + 1)
    } else if c == ']' {
        token_at(p, p + 1, SpecToken::RBracket, p + 1)
    } else if c == '{' {
        token_at(p, p + 1, SpecToken::LBrace, p + 1)
    } else if c == '}' {
        token_at(p, p + 1, SpecToken::RBrace, p + 1)
    } else if c == ':' {
        if has_next && n == ':' {
            token_at(p, p + 2, SpecToken::Scope, p + 2)
        } else {
            token_at(p, p + 1, SpecToken::Colon, p + 1)
        }
    } else if c == ';' {
        token_at(p, p + 1, SpecToken::Semicolon, p + 1)
    } else if c == ',' {
        token_at(p, p + 1, SpecToken::Comma, p + 1)
    } else if c == '.' {
        token_at(p, p + 1, SpecToken::Dot, p + 1)
    } else if c == '=' {
        if has_next && n == '=' {
            token_at(p, p + 2, SpecToken::Equals, p + 2)
        } else {
            token_at(p, p + 1, SpecToken::Assign, p + 1)
        }
    } else if c == '<' {
        if has_next && n == '=' {
            token_at(p, p + 2, SpecToken::LessThanEquals, p + 2)
        } else if has_next && n == '<' {
            token_at(p, p + 2, SpecToken::LShift, p + 2)
        } else {
            token_at(p, p + 1, SpecToken::LessThan, p + 1)
        }
    } else if c == '>' {
        if has_next && n == '=' {
            token_at(p, p + 2, SpecToken::GreaterThanEquals, p + 2)
        } else if has_next && n == '>' {
            token_at(p, p + 2, SpecToken::RShift, p + 2)
        } else {
            token_at(p, p + 1, SpecToken::GreaterThan, p + 1)
        }
    } else if c == '|' {
        if has_next && n == '|' {
            token_at(p, p + 2, SpecToken::Or, p + 2)
        } else {
            token_at(p, p + 1, SpecToken::Pipe, p + 1)
        }
    } else if c == '&' {
        if has_next && n == '&' {
            token_at(p, p + 2, SpecToken::And, p + 2)
        } else {
            token_at(p, p + 1, SpecToken::Ampersand, p + 1)
        }
    } else if c == '^' {
        token_at(p, p + 1, SpecToken::Circumflex, p + 1)
    } else {
        error_at(SpecSyntaxError::InvalidCharacter(InvalidCharacter { found: c, idx: p as usize }), p + 1)
    }
}

/// What the lexer does from position `p`: skip white space, then read one token.
/// With `signed`, a `+` or `-` starts a number (or stands alone); a line comment
/// is skipped and followed by a step without `signed`.
pub open spec fn lex_step(cs: Seq<char>, p: int, signed: bool) -> LexStep
    decreases cs.len() - p,
{
    let q = skip_ws(cs, p);
    if q < 0 || q >= cs.len() {
        LexStep::End
    } else {
        let c = cs[q];
        if is_digit(c) || (signed && (c == '+' || c == '-')) {
            number_step(cs, q)
        } else if is_alpha(c) || c == '_' {
            ident_step(cs, q)
        } else if c == '\'' {
            char_step(cs, q)
        } else if c == '"' {
            string_step(cs, q)
        } else if c == '/' && q + 1 < cs.len() && cs[q + 1] == '/' {
            let e = comment_end(cs, q + 2);
            if p < e <= cs.len() {
                lex_step(cs, e, false)
            } else {
                LexStep::End
            }
        } else {
            operator_step(cs, q)
        }
    }
}

/// The step for a character that starts neither a number, a word nor a literal:
/// a line comment followed by the next step, or an operator.
pub open spec fn symbol_step(cs: Seq<char>, p: int) -> LexStep {
    if cs[p] == '/' && p + 1 < cs.len() && cs[p + 1] == '/' {
        lex_step(cs, comment_end(cs, p + 2), false)
    } else {
        operator_step(cs, p)
    }
}

/// The mathematical value of what the lexer returns for one token.
pub open spec fn item_view(r: Result<(Range<usize>, Token), SyntaxError>) -> Result<
    (Range<usize>, SpecToken),
    SpecSyntaxError,
> {
    match r {
        Ok((range, t)) => Ok((range, t@)),
        Err(e) => Err(e@),
    }
}

/// Whether a returned value of `Lexer::next` is what `step` describes, the
/// lexer then standing at `pos` in a source of `len` characters.
pub open spec fn returns_step(
    r: Option<Result<(Range<usize>, Token), SyntaxError>>,
    step: LexStep,
    pos: int,
    len: int,
) -> bool {
    match step {
        LexStep::End => r is None && pos == len,
        LexStep::Item(item, next) => r is Some && item_view(r->0) == item && pos == next,
    }
}

/// The token for a word: its keyword, or else an identifier holding it.
pub fn keyword_or_ident(word: String) -> (r: Token)
    ensures
        r@ == keyword_token(word@),
{
    if str_equals(word.as_str(), "true") {
        Token::True
    } else if str_equals(word.as_str(), "false") {
        Token::False
    } else if str_equals(word.as_str(), "nullptr") {
        Token::Nullptr
    } else if str_equals(word.as_str(), "const") {
        Token::Const
    } else if str_equals(word.as_str(), "asm") {
        Token::Asm
    } else if str_equals(word.as_str(), "fn") {
        Token::Fn
    } else if str_equals(word.as_str(), "struct") {
        Token::Struct
    } else if str_equals(word.as_str(), "any") {
        Token::Any
    } else if str_equals(word.as_str(), "u16") {
        Token::U16
    } else if str_equals(word.as_str(), "i16") {
        Token::I16
    } else if str_equals(word.as_str(), "f16") {
        Token::F16
    } else if str_equals(word.as_str(), "as") {
        Token::As
    } else if str_equals(word.as_str(), "alias") {
        Token::Alias
    } else if str_equals(word.as_str(), "bool") {
        Token::Bool
    } else if str_equals(word.as_str(), "for") {
        Token::For
    } else if str_equals(word.as_str(), "to") {
        Token::To
    } else if str_equals(word.as_str(), "while") {
        Token::While
    } else if str_equals(word.as_str(), "loop") {
        Token::Loop
    } else if str_equals(word.as_str(), "break") {
        Token::Break
    } else if str_equals(word.as_str(), "continue") {
        Token::Continue
    } else if str_equals(word.as_str(), "iter") {
        Token::Iter
    } else if str_equals(word.as_str(), "let") {
        Token::Let
    } else if str_equals(word.as_str(), "if") {
        Token::If
    } else if str_equals(word.as_str(), "else") {
        Token::Else
    } else {
        Token::Ident(word)
    }
}

// ---------------------------------------------------------------------------
// Facts about the grammar.
// ---------------------------------------------------------------------------

proof fn lemma_skip_ws_bounds(cs: Seq<char>, p: int)
    requires
        0 <= p <= cs.len(),
    ensures
        p <= skip_ws(cs, p) <= cs.len(),
    decreases cs.len() - p,
{
    if p < cs.len() && is_white_space(cs[p]) {
        lemma_skip_ws_bounds(cs, p + 1);
    }
}

proof fn lemma_scan_literal_bounds(cs: Seq<char>, p: int, delim: char, escaped: bool)
    requires
        0 <= p,
    ensures
        scan_literal(cs, p, delim, escaped) matches Some((s, q)) ==> p < q <= cs.len(),
    decreases cs.len() - p,
{
    if 0 <= p < cs.len() {
        lemma_scan_literal_bounds(cs, p + 1, delim, false);
        lemma_scan_literal_bounds(cs, p + 1, delim, true);
    }
}

proof fn lemma_scan_digits_bounds(cs: Seq<char>, p: int)
    requires
        0 <= p <= cs.len(),
    ensures
        p <= scan_digits(cs, p) <= cs.len(),
        p < cs.len() && (is_digit(cs[p]) || cs[p] == '_') ==> p < scan_digits(cs, p),
    decreases cs.len() - p,
{
    if p < cs.len() && (is_digit(cs[p]) || cs[p] == '_') {
        lemma_scan_digits_bounds(cs, p + 1);
    }
}

proof fn lemma_scan_word_bounds(cs: Seq<char>, p: int)
    requires
        0 <= p <= cs.len(),
    ensures
        p <= scan_word(cs, p) <= cs.len(),
        p < cs.len() && (is_alnum(cs[p]) || cs[p] == '_') ==> p < scan_word(cs, p),
    decreases cs.len() - p,
{
    if p < cs.len() && (is_alnum(cs[p]) || cs[p] == '_') {
        lemma_scan_word_bounds(cs, p + 1);
    }
}

proof fn lemma_comment_end_bounds(cs: Seq<char>, p: int)
    requires
        0 <= p <= cs.len(),
    ensures
        p <= comment_end(cs, p) <= cs.len(),
        p < cs.len() && cs[p] != '\n' ==> p < comment_end(cs, p),
    decreases cs.len() - p,
{
    if p < cs.len() && cs[p] != '\n' {
        lemma_comment_end_bounds(cs, p + 1);
    }
}

/// Whether a step from `p` stays within a source of `len` characters and moves forward.
pub open spec fn step_advances(step: LexStep, p: int, len: int) -> bool {
    step matches LexStep::Item(item, q) ==> {
        &&& p < q <= len
        &&& item matches Ok((range, t)) ==> p <= range.start < range.end <= q
    }
}

proof fn lemma_number_step_advances(cs: Seq<char>, p: int)
    requires
        0 <= p < cs.len() <= usize::MAX,
        is_digit(cs[p]) || cs[p] == '+' || cs[p] == '-',
    ensures
        step_advances(number_step(cs, p), p, cs.len() as int),
{
    let p1 = if cs[p] == '+' || cs[p] == '-' {
        p + 1
    } else {
        p
    };
    lemma_scan_digits_bounds(cs, p1);
    let p2 = scan_digits(cs, p1);
    if p2 < cs.len() {
        lemma_scan_digits_bounds(cs, p2 + 1);
    }
}

proof fn lemma_literal_step_advances(cs: Seq<char>, p: int)
    requires
        0 <= p < cs.len() <= usize::MAX,
    ensures
        step_advances(char_step(cs, p), p, cs.len() as int),
        step_advances(string_step(cs, p), p, cs.len() as int),
{
    lemma_scan_literal_bounds(cs, p + 1, '\'', false);
}

/// Every token or error that the lexer returns starts at or after the position
/// it was called at, ends within the source, and the lexer moves past it.
pub proof fn lemma_lex_step_progress(cs: Seq<char>, p: int, signed: bool)
    requires
        0 <= p <= cs.len() <= usize::MAX,
    ensures
        step_advances(lex_step(cs, p, signed), p, cs.len() as int),
    decreases cs.len() - p,
{
    let q = skip_ws(cs, p);
    lemma_skip_ws_bounds(cs, p);
    if q < cs.len() {
        let c = cs[q];
        if is_digit(c) || (signed && (c == '+' || c == '-')) {
            lemma_number_step_advances(cs, q);
        } else if is_alpha(c) || c == '_' {
            lemma_scan_word_bounds(cs, q);
        } else if c == '\'' || c == '"' {
            lemma_literal_step_advances(cs, q);
        } else if c == '/' && q + 1 < cs.len() && cs[q + 1] == '/' {
            lemma_comment_end_bounds(cs, q + 2);
            lemma_lex_step_progress(cs, comment_end(cs, q + 2), false);
        }
    }
}

/// Reading with signs (`next_signed`) and without (`next`) give the same step, except
/// where the next character that is not white space is a `+` or `-` directly followed
/// by a digit: there `next_signed` reads a signed number.
pub proof fn law_signs_only_matter_before_digits(cs: Seq<char>, p: int)
    requires
        0 <= p <= cs.len(),
        ({
            let q = skip_ws(cs, p);
            !(0 <= q && q + 1 < cs.len() && (cs[q] == '+' || cs[q] == '-') && is_digit(cs[q + 1]))
        }),
    ensures
        lex_step(cs, p, true) == lex_step(cs, p, false),
{
    let q = skip_ws(cs, p);
    if 0 <= q < cs.len() {
        let c = cs[q];
        if !is_digit(c) && (c == '+' || c == '-') {
            assert(!is_alpha(c) && c != '_' && c != '\'' && c != '"' && c != '/');
            assert(number_step(cs, q) == operator_step(cs, q));
        }
    }
}

/// An escape in a literal stands for the character it names: in the character literal
/// `'\c''` starting at `p`, a backslash followed by `t` gives a tab, by `n` a line feed,
/// by `r` a carriage return and by `0` the nul character; a backslash followed by any
/// other character gives that character itself. The literal spans five characters.
pub proof fn law_escaped_char_literal(cs: Seq<char>, p: int, signed: bool, c: char)
    requires
        0 <= p,
        p + 5 <= cs.len() <= usize::MAX,
        cs[p] == '\'',
        cs[p + 1] == '\\',
        cs[p + 2] == c,
        cs[p + 3] == '\'',
        cs[p + 4] == '\'',
    ensures
        lex_step(cs, p, signed) matches LexStep::Item(Ok((range, SpecToken::CharLiteral(x))), next)
            && range.start == p && range.end == p + 5 && next == p + 5
            && (c == 't' ==> x == '\t')
            && (c == 'n' ==> x == '\n')
            && (c == 'r' ==> x == '\r')
            && (c == '0' ==> x == '\0')
            && (c != 't' && c != 'n' && c != 'r' && c != '0' ==> x == c),
{
    assert(!is_white_space('\''));
    assert(skip_ws(cs, p) == p);
    assert(scan_literal(cs, p + 3, '\'', false) == Some((Seq::<char>::empty(), p + 4)));
    let u = unescape(c);
    assert(scan_literal(cs, p + 2, '\'', true) == Some((seq![u] + Seq::<char>::empty(), p + 4)));
    assert(seq![u] + Seq::<char>::empty() =~= seq![u]);
    assert(scan_literal(cs, p + 1, '\'', false) == Some((seq![u], p + 4)));
    assert(!is_digit('\'') && !is_alpha('\''));
    assert(lex_step(cs, p, signed) == char_step(cs, p));
    assert(char_step(cs, p) == token_at(p, p + 5, SpecToken::CharLiteral(u), p + 5));
}

/// Whether the operator character at `p` is directly followed by `x`.
pub open spec fn followed_by(cs: Seq<char>, p: int, x: char) -> bool {
    p + 1 < cs.len() && cs[p + 1] == x
}

/// Each operator is read as the token it spells, taking its second character only where
/// the two make one operator: `<=`, `<<`, `<`; `>=`, `>>`, `>`; `==`, `=`; `!=`, `!`;
/// `&&`, `&`; `||`, `|`; `->`, `-`; and `^`, `+`, `*`, `/` alone.
pub proof fn law_operator_spellings(cs: Seq<char>, p: int)
    requires
        0 <= p < cs.len() <= usize::MAX,
    ensures
        ({
            let c = cs[p];
            let step = lex_step(cs, p, false);
            &&& (c == '<' && followed_by(cs, p, '=')) ==> step == token_at(p, p + 2, SpecToken::LessThanEquals, p + 2)
            &&& (c == '<' && followed_by(cs, p, '<')) ==> step == token_at(p, p + 2, SpecToken::LShift, p + 2)
            &&& (c == '<' && !followed_by(cs, p, '=') && !followed_by(cs, p, '<')) ==> step == token_at(p, p + 1, SpecToken::LessThan, p + 1)
            &&& (c == '>' && followed_by(cs, p, '=')) ==> step == token_at(p, p + 2, SpecToken::GreaterThanEquals, p + 2)
            &&& (c == '>' && followed_by(cs, p, '>')) ==> step == token_at(p, p + 2, SpecToken::RShift, p + 2)
            &&& (c == '>' && !followed_by(cs, p, '=') && !followed_by(cs, p, '>')) ==> step == token_at(p, p + 1, SpecToken::GreaterThan, p + 1)
            &&& (c == '=' && followed_by(cs, p, '=')) ==> step == token_at(p, p + 2, SpecToken::Equals, p + 2)
            &&& (c == '=' && !followed_by(cs, p, '=')) ==> step == token_at(p, p + 1, SpecToken::Assign, p + 1)
            &&& (c == '!' && followed_by(cs, p, '=')) ==> step == token_at(p, p + 2, SpecToken::NotEquals, p + 2)
            &&& (c == '!' && !followed_by(cs, p, '=')) ==> step == token_at(p, p + 1, SpecToken::Bang, p + 1)
            &&& (c == '&' && followed_by(cs, p, '&')) ==> step == token_at(p, p + 2, SpecToken::And, p + 2)
            &&& (c == '&' && !followed_by(cs, p, '&')) ==> step == token_at(p, p + 1, SpecToken::Ampersand, p + 1)
            &&& (c == '|' && followed_by(cs, p, '|')) ==> step == token_at(p, p + 2, SpecToken::Or, p + 2)
            &&& (c == '|' && !followed_by(cs, p, '|')) ==> step == token_at(p, p + 1, SpecToken::Pipe, p + 1)
            &&& (c == '-' && followed_by(cs, p, '>')) ==> step == token_at(p, p + 2, SpecToken::Arrow, p + 2)
            &&& (c == '-' && !followed_by(cs, p, '>')) ==> step == token_at(p, p + 1, SpecToken::Minus, p + 1)
            &&& c == '^' ==> step == token_at(p, p + 1, SpecToken::Circumflex, p + 1)
            &&& c == '+' ==> step == token_at(p, p + 1, SpecToken::Plus, p + 1)
            &&& c == '*' ==> step == token_at(p, p + 1, SpecToken::Asterisk, p + 1)
            &&& (c == '/' && !followed_by(cs, p, '/')) ==> step == token_at(p, p + 1, SpecToken::Slash, p + 1)
        }),
{
    let c = cs[p];
    if c == '<' || c == '>' || c == '=' || c == '!' || c == '&' || c == '|' || c == '-' || c == '^'
        || c == '+' || c == '*' || (c == '/' && !followed_by(cs, p, '/')) {
        assert(!is_white_space(c));
        assert(skip_ws(cs, p) == p);
        assert(!is_digit(c) && !is_alpha(c));
        assert(lex_step(cs, p, false) == operator_step(cs, p));
    }
}

proof fn lemma_accumulate(v: nat, d: nat)
    requires
        d < 10,
    ensures
        ((((v % 0x1_0000_0000) * 10) % 0x1_0000_0000) + d) % 0x1_0000_0000 == (v * 10 + d)
            % 0x1_0000_0000,
{
    let m: int = 0x1_0000_0000;
    vstd::arithmetic::div_mod::lemma_mul_mod_noop_left(v as int, 10, m);
    vstd::arithmetic::div_mod::lemma_add_mod_noop((v * 10) as int, d as int, m);
    vstd::arithmetic::div_mod::lemma_small_mod(d, m as nat);
    vstd::arithmetic::div_mod::lemma_mod_twice((v * 10) as int, m);
}

proof fn lemma_truncate_to_16(v: nat)
    ensures
        (v % 0x1_0000_0000) % 65536 == v % 65536,
{
    vstd::arithmetic::div_mod::lemma_mod_mod(v as int, 65536, 65536);
}

// ---------------------------------------------------------------------------
// The lexer.
// ---------------------------------------------------------------------------

/// A lexer over a source text: the characters of the text and the position of
/// the next character to read.
pub struct Lexer {
    code: Vec<char>,
    pos: usize,
}

impl Lexer {
    /// The characters of the source.
    pub closed spec fn source(&self) -> Seq<char> {
        self.code@
    }

    /// The index of the next character to read.
    pub closed spec fn position(&self) -> int {
        self.pos as int
    }

    #[verifier::type_invariant]
    spec fn inv(&self) -> bool {
        self.pos <= self.code@.len()
    }

    /// A lexer at the start of `code`.
    pub fn new(code: &str) -> (r: Lexer)
        ensures
            r.source() == code@,
            r.position() == 0,
            r.source().len() <= usize::MAX,
    {
        let code = chars_of(code);
        let n = code.len();
        assert(code@.len() == n);
        Lexer { code, pos: 0 }
    }

    /// A lexer over the same source, standing at the same position.
    pub fn duplicate(&self) -> (r: Lexer)
        ensures
            r.source() == self.source(),
            r.position() == self.position(),
    {
        proof {
            use_type_invariant(self);
        }
        Lexer { code: self.code.clone(), pos: self.pos }
    }

    /// The index of the next character to read.
    pub fn offset(&self) -> (r: usize)
        ensures
            r == self.position(),
            r <= self.source().len(),
            self.source().len() <= usize::MAX,
    {
        proof {
            use_type_invariant(self);
        }
        let n = self.code.len();
        assert(self.code@.len() == n);
        self.pos
    }

    /// The next character, without reading it.
    fn peek_char(&self) -> (r: Option<char>)
        ensures
            r == if self.position() < self.source().len() {
                Some(self.source()[self.position()])
            } else {
                None::<char>
            },
    {
        proof {
            use_type_invariant(self);
        }
        if self.pos < self.code.len() {
            Some(self.code[self.pos])
        } else {
            None
        }
    }

    /// The character after the next one, without reading anything.
    fn peek_second(&self) -> (r: Option<char>)
        ensures
            r == if self.position() + 1 < self.source().len() {
                Some(self.source()[self.position() + 1])
            } else {
                None::<char>
            },
    {
        proof {
            use_type_invariant(self);
        }
        if self.pos < self.code.len() && self.pos + 1 < self.code.len() {
            Some(self.code[self.pos + 1])
        } else {
            None
        }
    }

    /// Reads the next character.
    fn advance(&mut self)
        requires
            old(self).position() < old(self).source().len(),
        ensures
            final(self).source() == old(self).source(),
            final(self).position() == old(self).position() + 1,
    {
        assert(self.pos < self.code.len());
        self.pos = self.pos + 1;
    }

    fn skip_whitespace(&mut self)
        ensures
            final(self).source() == old(self).source(),
            final(self).position() == skip_ws(old(self).source(), old(self).position()),
    {
        proof {
            use_type_invariant(&*self);
        }
        loop
            invariant
                self.source() == old(self).source(),
                0 <= self.position() <= self.source().len(),
                skip_ws(self.source(), self.position()) == skip_ws(
                    old(self).source(),
                    old(self).position(),
                ),
            decreases self.source().len() - self.position(),
        {
            match self.peek_char() {
                Some(c) => {
                    if char_is_white_space(c) {
                        self.advance();
                    } else {
                        return;
                    }
                },
                None => {
                    return;
                },
            }
            proof {
                use_type_invariant(&*self);
            }
        }
    }

    /// Reads the body of a literal and its closing `delim`.
    fn parse_literal(&mut self, delim: char) -> (r: Result<String, SyntaxError>)
        ensures
            final(self).source() == old(self).source(),
            match scan_literal(old(self).source(), old(self).position(), delim, false) {
                Some((s, q)) => r is Ok && r->Ok_0@ == s && final(self).position() == q,
                None => r == Err::<String, SyntaxError>(
                    SyntaxError::UnexpectedEof(UnexpectedEof { expected: Expected::Literal }),
                ) && final(self).position() == old(self).source().len(),
            },
    {
        proof {
            use_type_invariant(&*self);
        }
        let mut literal = String::new();
        let mut escaped = false;
        loop
            invariant
                self.source() == old(self).source(),
                0 <= self.position() <= self.source().len(),
                scan_literal(old(self).source(), old(self).position(), delim, false) == prefixed(
                    literal@,
                    scan_literal(self.source(), self.position(), delim, escaped),
                ),
            decreases self.source().len() - self.position(),
        {
            let ghost before = literal@;
            match self.peek_char() {
                None => {
                    return Err(
                        SyntaxError::UnexpectedEof(UnexpectedEof { expected: Expected::Literal }),
                    );
                },
                Some(c) => {
                    self.advance();
                    if escaped {
                        let u = if c == '0' {
                            '\0'
                        } else if c == 'n' {
                            '\n'
                        } else if c == 't' {
                            '\t'
                        } else if c == 'r' {
                            '\r'
                        } else {
                            c
                        };
                        push_char(&mut literal, u);
                        escaped = false;
                        proof {
                            let rest = scan_literal(self.source(), self.position(), delim, false);
                            if let Some((s, q)) = rest {
                                assert(before + (seq![u] + s) =~= literal@ + s);
                            }
                        }
                    } else if c == delim {
                        assert(literal@ + Seq::<char>::empty() =~= literal@);
                        return Ok(literal);
                    } else if c == '\\' {
                        escaped = true;
                    } else {
                        push_char(&mut literal, c);
                        proof {
                            let rest = scan_literal(self.source(), self.position(), delim, false);
                            if let Some((s, q)) = rest {
                                assert(before + (seq![c] + s) =~= literal@ + s);
                            }
                        }
                    }
                },
            }
            proof {
                use_type_invariant(&*self);
            }
        }
    }
    /// Reads a character literal; the next character is its opening quote.
    fn parse_char(&mut self) -> (r: Result<(Range<usize>, Token), SyntaxError>)
        requires
            old(self).position() < old(self).source().len(),
            old(self).source()[old(self).position()] == '\'',
        ensures
            final(self).source() == old(self).source(),
            char_step(old(self).source(), old(self).position()) == LexStep::Item(
                item_view(r),
                final(self).position(),
            ),
    {
        proof {
            use_type_invariant(&*self);
            lemma_scan_literal_bounds(self.source(), self.position() + 1, '\'', false);
        }
        let start = self.pos;
        self.advance();
        let content = match self.parse_literal('\'') {
            Ok(content) => content,
            Err(e) => {
                return Err(e);
            },
        };
        proof {
            use_type_invariant(&*self);
        }
        let end = match self.peek_char() {
            None => {
                return Err(
                    SyntaxError::UnexpectedEof(UnexpectedEof { expected: Expected::Character('\'') }),
                );
            },
            Some(c) => {
                let idx = self.pos;
                self.advance();
                if c == '\'' {
                    idx + 1
                } else {
                    return Err(
                        SyntaxError::UnexpectedCharacter(
                            UnexpectedCharacter { expected: '\'', actual: c, idx },
                        ),
                    );
                }
            },
        };
        if content.as_str().unicode_len() == 1 {
            let c = content.as_str().get_char(0);
            Ok((start..end, Token::CharLiteral(c)))
        } else {
            Err(
                SyntaxError::InvalidCharacterLiteralLength(
                    InvalidCharacterLiteralLength { indices: start..end, literal: content },
                ),
            )
        }
    }

    /// Reads a string literal; the next character is its opening double quote.
    fn parse_string(&mut self) -> (r: Result<(Range<usize>, Token), SyntaxError>)
        requires
            old(self).position() < old(self).source().len(),
            old(self).source()[old(self).position()] == '"',
        ensures
            final(self).source() == old(self).source(),
            string_step(old(self).source(), old(self).position()) == LexStep::Item(
                item_view(r),
                final(self).position(),
            ),
    {
        proof {
            use_type_invariant(&*self);
            lemma_scan_literal_bounds(self.source(), self.position() + 1, '\'', false);
        }
        let start = self.pos;
        self.advance();
        let content = match self.parse_literal('\'') {
            Ok(content) => content,
            Err(e) => {
                return Err(e);
            },
        };
        proof {
            use_type_invariant(&*self);
        }
        let end = match self.peek_char() {
            None => {
                return Err(
                    SyntaxError::UnexpectedEof(UnexpectedEof { expected: Expected::Character('"') }),
                );
            },
            Some(c) => {
                let idx = self.pos;
                self.advance();
                if c == '"' {
                    idx + 1
                } else {
                    return Err(
                        SyntaxError::UnexpectedCharacter(
                            UnexpectedCharacter { expected: '"', actual: c, idx },
                        ),
                    );
                }
            },
        };
        Ok((start..end, Token::String(content)))
    }
    /// Reads the digits and underscores from the current position: their value
    /// modulo 2^32, and whether there was any.
    fn read_digits(&mut self) -> (r: u32)
        ensures
            final(self).source() == old(self).source(),
            final(self).position() == scan_digits(old(self).source(), old(self).position()),
            r == decimal_value(
                old(self).source().subrange(old(self).position(), final(self).position()),
            ) % 0x1_0000_0000,
    {
        proof {
            use_type_invariant(&*self);
            lemma_scan_digits_bounds(self.source(), self.position());
        }
        let ghost cs = self.source();
        let ghost p1 = self.position();
        let mut value: u32 = 0;
        assert(cs.subrange(p1, p1).len() == 0);
        loop
            invariant
                self.source() == cs,
                cs == old(self).source(),
                p1 == old(self).position(),
                p1 <= self.position() <= scan_digits(cs, p1),
                scan_digits(cs, self.position()) == scan_digits(cs, p1),
                scan_digits(cs, p1) <= cs.len(),
                value == decimal_value(cs.subrange(p1, self.position())) % 0x1_0000_0000,
            decreases cs.len() - self.position(),
        {
            proof {
                use_type_invariant(&*self);
            }
            let ghost pos = self.position();
            proof {
                lemma_scan_digits_bounds(cs, pos);
            }
            match self.peek_char() {
                Some(c) => {
                    if char_is_digit(c) {
                        let d = char_digit_value(c);
                        proof {
                            lemma_accumulate(decimal_value(cs.subrange(p1, pos)), d as nat);
                            assert(cs.subrange(p1, pos + 1).drop_last() =~= cs.subrange(p1, pos));
                        }
                        value = value.wrapping_mul(10).wrapping_add(d);
                        self.advance();
                    } else if c == '_' {
                        proof {
                            assert(cs.subrange(p1, pos + 1).drop_last() =~= cs.subrange(p1, pos));
                        }
                        self.advance();
                    } else {
                        return value;
                    }
                },
                None => {
                    return value;
                },
            }
        }
    }

    /// Reads the digits after a decimal point, dropping underscores.
    fn read_fraction(&mut self) -> (r: String)
        ensures
            final(self).source() == old(self).source(),
            final(self).position() == scan_digits(old(self).source(), old(self).position()),
            r@ == digits_only(
                old(self).source().subrange(old(self).position(), final(self).position()),
            ),
    {
        proof {
            use_type_invariant(&*self);
            lemma_scan_digits_bounds(self.source(), self.position());
        }
        let ghost cs = self.source();
        let ghost p1 = self.position();
        let mut digits = String::new();
        assert(cs.subrange(p1, p1) =~= Seq::<char>::empty());
        loop
            invariant
                self.source() == cs,
                cs == old(self).source(),
                p1 == old(self).position(),
                p1 <= self.position() <= scan_digits(cs, p1),
                scan_digits(cs, self.position()) == scan_digits(cs, p1),
                scan_digits(cs, p1) <= cs.len(),
                digits@ == digits_only(cs.subrange(p1, self.position())),
            decreases cs.len() - self.position(),
        {
            proof {
                use_type_invariant(&*self);
            }
            let ghost pos = self.position();
            proof {
                lemma_scan_digits_bounds(cs, pos);
            }
            match self.peek_char() {
                Some(c) => {
                    if char_is_digit(c) || c == '_' {
                        proof {
                            assert(cs.subrange(p1, pos + 1).drop_last() =~= cs.subrange(p1, pos));
                        }
                        if c != '_' {
                            push_char(&mut digits, c);
                        }
                        self.advance();
                    } else {
                        return digits;
                    }
                },
                None => {
                    return digits;
                },
            }
        }
    }

    /// Reads a number, or a lone sign; the next character is a digit or a sign.
    fn parse_number(&mut self) -> (r: Result<(Range<usize>, Token), SyntaxError>)
        requires
            old(self).position() < old(self).source().len(),
            is_digit(old(self).source()[old(self).position()])
                || old(self).source()[old(self).position()] == '+'
                || old(self).source()[old(self).position()] == '-',
        ensures
            final(self).source() == old(self).source(),
            number_step(old(self).source(), old(self).position()) == LexStep::Item(
                item_view(r),
                final(self).position(),
            ),
    {
        proof {
            use_type_invariant(&*self);
        }
        let ghost cs = self.source();
        let ghost p = self.position();
        let start = self.pos;
        let first = self.code[self.pos];
        let sign: Option<bool> = if first == '+' || first == '-' {
            self.advance();
            Some(first == '+')
        } else {
            None
        };
        if let Some(positive) = sign {
            let digit_follows = match self.peek_char() {
                Some(c) => char_is_digit(c),
                None => false,
            };
            if !digit_follows {
                if positive {
                    return Ok((start..start + 1, Token::Plus));
                } else {
                    proof {
                        use_type_invariant(&*self);
                    }
                    if self.peek_char() == Some('>') {
                        self.advance();
                        return Ok((start..start + 2, Token::Arrow));
                    } else {
                        return Ok((start..start + 1, Token::Minus));
                    }
                }
            }
        }
        let ghost p1 = self.position();
        proof {
            lemma_scan_digits_bounds(cs, p1);
        }
        let pre_comma = self.read_digits();
        proof {
            use_type_invariant(&*self);
        }
        let end = self.pos;
        if self.peek_char() == Some('.') {
            self.advance();
            let point = self.pos;
            let fraction = self.read_fraction();
            let end = if self.pos > point {
                self.pos
            } else {
                end
            };
            Ok((start..end, Token::Float(FloatLiteral { whole: pre_comma, fraction })))
        } else if let Some(positive) = sign {
            proof {
                lemma_truncate_to_16(decimal_value(cs.subrange(p1, self.position())));
                assert((pre_comma as u16) as int == pre_comma % 65536) by (bit_vector);
            }
            let v = (pre_comma as u16) as i16;
            proof {
                let u = pre_comma as u16;
                assert(((u as i16) as int) == if u >= 32768 {
                    u - 65536
                } else {
                    u as int
                }) by (bit_vector);
            }
            let value = if positive {
                v
            } else if v == i16::MIN {
                v
            } else {
                -v
            };
            Ok((start..end, Token::SignedInt(value)))
        } else {
            proof {
                lemma_truncate_to_16(decimal_value(cs.subrange(p1, self.position())));
                assert((pre_comma as u16) as int == pre_comma % 65536) by (bit_vector);
            }
            Ok((start..end, Token::UnsignedInt(pre_comma as u16)))
        }
    }
    /// Reads a keyword or identifier; the next character is a letter or underscore.
    fn parse_ident(&mut self) -> (r: Result<(Range<usize>, Token), SyntaxError>)
        requires
            old(self).position() < old(self).source().len(),
            is_alpha(old(self).source()[old(self).position()])
                || old(self).source()[old(self).position()] == '_',
        ensures
            final(self).source() == old(self).source(),
            ident_step(old(self).source(), old(self).position()) == LexStep::Item(
                item_view(r),
                final(self).position(),
            ),
    {
        proof {
            use_type_invariant(&*self);
            lemma_scan_word_bounds(self.source(), self.position());
        }
        let ghost cs = self.source();
        let start = self.pos;
        let mut word = String::new();
        assert(cs.subrange(start as int, start as int) =~= Seq::<char>::empty());
        loop
            invariant
                self.source() == cs,
                cs == old(self).source(),
                start == old(self).position(),
                start <= self.position() <= scan_word(cs, start as int),
                scan_word(cs, self.position()) == scan_word(cs, start as int),
                scan_word(cs, start as int) <= cs.len(),
                word@ == cs.subrange(start as int, self.position()),
            ensures
                self.position() == scan_word(cs, start as int),
                word@ == cs.subrange(start as int, self.position()),
            decreases cs.len() - self.position(),
        {
            proof {
                use_type_invariant(&*self);
                lemma_scan_word_bounds(cs, self.position());
            }
            let ghost pos = self.position();
            match self.peek_char() {
                Some(c) => {
                    if char_is_alnum(c) || c == '_' {
                        push_char(&mut word, c);
                        self.advance();
                        assert(word@ =~= cs.subrange(start as int, self.position()));
                    } else {
                        break;
                    }
                },
                None => {
                    break;
                },
            }
        }
        let end = self.pos;
        Ok((start..end, keyword_or_ident(word)))
    }

    /// Reads an operator, or skips a line comment and reads what follows it.
    fn parse_operator(&mut self) -> (r: Option<Result<(Range<usize>, Token), SyntaxError>>)
        requires
            old(self).position() < old(self).source().len(),
        ensures
            final(self).source() == old(self).source(),
            returns_step(
                r,
                symbol_step(old(self).source(), old(self).position()),
                final(self).position(),
                old(self).source().len() as int,
            ),
        decreases old(self).source().len() - old(self).position(), 0nat,
    {
        proof {
            use_type_invariant(&*self);
        }
        let ghost cs = self.source();
        let idx = self.pos;
        let next = self.code[self.pos];
        let second = self.peek_second();
        self.advance();
        let (len, token): (usize, Token) = if next == '-' {
            if second == Some('>') {
                self.advance();
                (2, Token::Arrow)
            } else {
                (1, Token::Minus)
            }
        } else if next == '/' {
            if second == Some('/') {
                self.advance();
                proof {
                    lemma_comment_end_bounds(cs, self.position());
                }
                loop
                    invariant
                        self.source() == cs,
                        cs == old(self).source(),
                        idx + 2 <= self.position() <= comment_end(cs, idx + 2),
                        comment_end(cs, self.position()) == comment_end(cs, idx + 2),
                        comment_end(cs, idx + 2) <= cs.len(),
                    ensures
                        self.source() == cs,
                        self.position() == comment_end(cs, idx + 2),
                    decreases cs.len() - self.position(),
                {
                    proof {
                        use_type_invariant(&*self);
                        lemma_comment_end_bounds(cs, self.position());
                    }
                    match self.peek_char() {
                        Some(c) => {
                            if c != '\n' {
                                self.advance();
                            } else {
                                break;
                            }
                        },
                        None => {
                            break;
                        },
                    }
                }
                return self.next();
            } else {
                (1, Token::Slash)
            }
        } else if next == '!' {
            if second == Some('=') {
                self.advance();
                (2, Token::NotEquals)
            } else {
                (1, Token::Bang)
            }
        } else if next == ':' {
            if second == Some(':') {
                self.advance();
                (2, Token::Scope)
            } else {
                (1, Token::Colon)
            }
        } else if next == '=' {
            if second == Some('=') {
                self.advance();
                (2, Token::Equals)
            } else {
                (1, Token::Assign)
            }
        } else if next == '<' {
            if second == Some('=') {
                self.advance();
                (2, Token::LessThanEquals)
            } else if second == Some('<') {
                self.advance();
                (2, Token::LShift)
            } else {
                (1, Token::LessThan)
            }
        } else if next == '>' {
            if second == Some('=') {
                self.advance();
                (2, Token::GreaterThanEquals)
            } else if second == Some('>') {
                self.advance();
                (2, Token::RShift)
            } else {
                (1, Token::GreaterThan)
            }
        } else if next == '|' {
            if second == Some('|') {
                self.advance();
                (2, Token::Or)
            } else {
                (1, Token::Pipe)
            }
        } else if next == '&' {
            if second == Some('&') {
                self.advance();
                (2, Token::And)
            } else {
                (1, Token::Ampersand)
            }
        } else if next == '(' {
            (1, Token::LParen)
        } else if next == ')' {
            (1, Token::RParen)
        } else if next == '[' {
            (1, Token::LBracket)
        } else if next == ']' {
            (1, Token::RBracket)
        } else if next == '{' {
            (1, Token::LBrace)
        } else if next == '}' {
            (1, Token::RBrace)
        } else if next == ';' {
            (1, Token::Semicolon)
        } else if next == ',' {
            (1, Token::Comma)
        } else if next == '.' {
            (1, Token::Dot)
        } else if next == '*' {
            (1, Token::Asterisk)
        } else if next == '+' {
            (1, Token::Plus)
        } else if next == '^' {
            (1, Token::Circumflex)
        } else {
            return Some(
                Err(SyntaxError::InvalidCharacter(InvalidCharacter { found: next, idx })),
            );
        };
        Some(Ok((idx..idx + len, token)))
    }

    /// Reads the next token. `None` when only white space is left. A `+` or `-` is
    /// always an operator here: `-5` gives `Minus`, then the number.
    pub fn next(&mut self) -> (r: Option<Result<(Range<usize>, Token), SyntaxError>>)
        ensures
            final(self).source() == old(self).source(),
            final(self).position() <= final(self).source().len(),
            returns_step(
                r,
                lex_step(old(self).source(), old(self).position(), false),
                final(self).position(),
                old(self).source().len() as int,
            ),
        decreases old(self).source().len() - old(self).position(), 2nat,
    {
        let r = self.next_token(false);
        proof {
            use_type_invariant(&*self);
        }
        r
    }

    /// Reads the next token, like `next`, except that a `+` or `-` is read as the
    /// sign of a number that follows it (or alone, as an operator).
    pub fn next_signed(&mut self) -> (r: Option<Result<(Range<usize>, Token), SyntaxError>>)
        ensures
            final(self).source() == old(self).source(),
            final(self).position() <= final(self).source().len(),
            returns_step(
                r,
                lex_step(old(self).source(), old(self).position(), true),
                final(self).position(),
                old(self).source().len() as int,
            ),
    {
        let r = self.next_token(true);
        proof {
            use_type_invariant(&*self);
        }
        r
    }

    fn next_token(&mut self, signed: bool) -> (r: Option<Result<(Range<usize>, Token), SyntaxError>>)
        ensures
            final(self).source() == old(self).source(),
            returns_step(
                r,
                lex_step(old(self).source(), old(self).position(), signed),
                final(self).position(),
                old(self).source().len() as int,
            ),
        decreases old(self).source().len() - old(self).position(), 1nat,
    {
        proof {
            use_type_invariant(&*self);
            lemma_skip_ws_bounds(self.source(), self.position());
        }
        let ghost cs = self.source();
        let ghost p = self.position();
        self.skip_whitespace();
        proof {
            if self.position() < cs.len() && cs[self.position()] == '/' && self.position() + 1
                < cs.len() && cs[self.position() + 1] == '/' {
                lemma_comment_end_bounds(cs, self.position() + 2);
            }
        }
        match self.peek_char() {
            Some(c) => {
                if char_is_digit(c) || (signed && (c == '+' || c == '-')) {
                    Some(self.parse_number())
                } else if char_is_alpha(c) || c == '_' {
                    Some(self.parse_ident())
                } else if c == '\'' {
                    Some(self.parse_char())
                } else if c == '"' {
                    Some(self.parse_string())
                } else {
                    self.parse_operator()
                }
            },
            None => None,
        }
    }

}

} // verus!
