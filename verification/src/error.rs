//! Errors of the lexer and parser, and how they are reported.
pub mod invalid_character;
pub mod invalid_character_literal_length;
pub mod unexpected_character;
pub mod unexpected_eof;

use crate::compiler::error::{
    option_type_view, InvalidDerefError, MismatchedAssignTypeError, MismatchedReturnTypeError,
};
use crate::chars::{char_is_white_space, is_white_space};
use crate::lexer::error::{syntax_error_report, syntax_error_reportable, SpecSyntaxError, SyntaxError};
use crate::lexer::token::{token_debug_text, SpecToken};
use crate::parser::ast::join_names;
use crate::parser::cerium_type::{format_type, optional_type_text, SpecType};
use crate::parser::UnexpectedTokenError;
use crate::text::{
    bytes_of_range, chars_of, decimal, decimal_text, lemma_utf8_len_append, lemma_utf8_len_split,
    repeat_char, repeated, str_len, string_of_range, utf8_len,
};
use colored::Colorize;
use std::ops::Range;
use vstd::pervasive::unreached;
use vstd::prelude::*;
use vstd::string::*;

verus! {

/// The colours that error reports use.
#[derive(Debug, Clone, Copy)]
pub enum HighlightColor {
    Red,
    BrightBlue,
    BrightWhite,
}

/// The ANSI code that selects a colour for the text.
pub open spec fn color_code(c: HighlightColor) -> Seq<char> {
    match c {
        HighlightColor::Red => "31"@,
        HighlightColor::BrightBlue => "94"@,
        HighlightColor::BrightWhite => "97"@,
    }
}

/// The escape sequence that starts text in colour `c`.
pub open spec fn style_code(c: HighlightColor) -> Seq<char> {
    seq!['\u{1b}', '['] + color_code(c) + seq!['m']
}

/// The escape sequence that ends coloured text.
pub open spec fn reset_code() -> Seq<char> {
    seq!['\u{1b}', '[', '0', 'm']
}

/// `text` with `style` inserted after each reset sequence in it, so that text nested in
/// it keeps the outer colour.
pub open spec fn reset_escaped(text: Seq<char>, style: Seq<char>) -> Seq<char>
    decreases text.len(),
{
    if text.len() == 0 {
        Seq::empty()
    } else if text.len() >= 4 && text.subrange(0, 4) == reset_code() {
        reset_code() + style + reset_escaped(text.subrange(4, text.len() as int), style)
    } else {
        seq![text[0]] + reset_escaped(text.drop_first(), style)
    }
}

/// `text` filled on the left with `0` up to `width` characters.
pub open spec fn zero_padded(text: Seq<char>, width: nat) -> Seq<char> {
    if text.len() < width {
        repeated('0', (width - text.len()) as nat) + text
    } else {
        text
    }
}

/// `text` shown in colour `c`, filled to `width`.
pub open spec fn painted(text: Seq<char>, c: HighlightColor, width: nat) -> Seq<char> {
    style_code(c) + zero_padded(reset_escaped(text, style_code(c)), width) + reset_code()
}

/// `shown` is `text` filled to `width`, either plain (when colours are off) or in colour
/// `c`.
pub open spec fn shows(text: Seq<char>, c: HighlightColor, width: nat, shown: Seq<char>) -> bool {
    shown == zero_padded(text, width) || shown == painted(text, c, width)
}

/// `format!("{:0>width$}", text.color(c))` with the `colored` crate: the text in colour
/// `c`, filled on the left with `0` up to `width` characters. Whether colours are on
/// depends on the environment and the terminal (`colored`'s `ShouldColorize`), so the
/// contract allows both outcomes: the plain filled text, or the filled text between the
/// colour's escape sequence and the reset sequence, with the colour repeated after each
/// reset sequence inside the text.
#[verifier::external_body]
fn paint(text: &str, c: HighlightColor, width: usize) -> (r: String)
    ensures
        shows(text@, c, width as nat, r@),
{
    let color = match c {
        HighlightColor::Red => colored::Color::Red,
        HighlightColor::BrightBlue => colored::Color::BrightBlue,
        HighlightColor::BrightWhite => colored::Color::BrightWhite,
    };
    format!("{:0>1$}", text.color(color), width)
}

/// The length of the first line of `cs`, its `\n` included.
pub open spec fn first_line_len(cs: Seq<char>) -> nat
    decreases cs.len(),
{
    if cs.len() == 0 {
        0
    } else if cs[0] == '\n' {
        1
    } else {
        1 + first_line_len(cs.drop_first())
    }
}

/// The first line of a non-empty text is not empty and holds no `\n` but, when the text
/// goes on after it, its last character.
pub proof fn lemma_first_line_len(cs: Seq<char>)
    ensures
        cs.len() > 0 ==> 1 <= first_line_len(cs) <= cs.len(),
        forall|i: int| 0 <= i < first_line_len(cs) - 1 ==> cs[i] != '\n',
        first_line_len(cs) < cs.len() ==> cs[first_line_len(cs) - 1] == '\n',
        first_line_len(cs) == cs.len() && cs.len() > 0 && cs.last() != '\n' ==> forall|i: int| 0 <= i < cs.len() ==> cs[i] != '\n',
    decreases cs.len(),
{
    if cs.len() > 0 && cs[0] != '\n' {
        lemma_first_line_len(cs.drop_first());
        assert forall|i: int| 0 <= i < first_line_len(cs) - 1 implies cs[i] != '\n' by {
            if i > 0 {
                assert(cs[i] == cs.drop_first()[i - 1]);
            }
        }
    }
}

/// The lines of `cs` as `split_inclusive('\n')` gives them: each with its `\n`, the last
/// without one when `cs` does not end with `\n`; none for an empty text.
pub open spec fn split_lines(cs: Seq<char>) -> Seq<Seq<char>>
    decreases cs.len(),
{
    if cs.len() == 0 {
        Seq::empty()
    } else {
        proof {
            lemma_first_line_len(cs);
        }
        let n = first_line_len(cs) as int;
        seq![cs.subrange(0, n)] + split_lines(cs.subrange(n, cs.len() as int))
    }
}

/// `s` without its trailing white space.
pub open spec fn trim_end(s: Seq<char>) -> Seq<char>
    decreases s.len(),
{
    if s.len() > 0 && is_white_space(s.last()) {
        trim_end(s.drop_last())
    } else {
        s
    }
}

/// `a - b`, or 0 when `b > a`.
pub open spec fn saturating_sub(a: nat, b: nat) -> nat {
    if a > b {
        (a - b) as nat
    } else {
        0
    }
}

/// A line that a range touches: its number (from 0), its text without trailing white
/// space, and the part of it in the range.
pub type SpecLineHit = (nat, Seq<char>, nat, nat);

/// The lines of `lines` (numbered from `number`, starting at byte `offset`) that the
/// range `start..end` touches, in order, each given by its text without trailing white
/// space and the part of the range within it. The part ends at the end of that text when
/// `clip` holds, else at the end of the whole line (its line break included).
pub open spec fn line_hits(lines: Seq<Seq<char>>, number: nat, offset: nat, start: nat, end: nat, clip: bool) -> Seq<SpecLineHit>
    decreases lines.len(),
{
    if lines.len() == 0 {
        Seq::empty()
    } else {
        let line = trim_end(lines[0]);
        let limit = if clip {
            utf8_len(line)
        } else {
            utf8_len(lines[0])
        };
        let s = saturating_sub(start, offset);
        let e = if saturating_sub(end, offset) < limit {
            saturating_sub(end, offset)
        } else {
            limit
        };
        (if s < e {
            seq![(number, line, s, e)]
        } else {
            Seq::empty()
        }) + line_hits(lines.drop_first(), number + 1, offset + utf8_len(lines[0]), start, end, clip)
    }
}

/// The lines of `code` that `range` touches (see `line_hits`); positions count bytes of
/// the text's UTF-8 form.
pub open spec fn lines_touched(code: Seq<char>, range: Range<usize>, clip: bool) -> Seq<SpecLineHit> {
    line_hits(split_lines(code), 0, 0, range.start as nat, range.end as nat, clip)
}

/// The mathematical value of a touched line.
pub open spec fn hit_view(h: (usize, String, Range<usize>)) -> SpecLineHit {
    (h.0 as nat, h.1@, h.2.start as nat, h.2.end as nat)
}

/// The mathematical values of touched lines.
pub open spec fn hits_view(v: Seq<(usize, String, Range<usize>)>) -> Seq<SpecLineHit> {
    v.map_values(|h: (usize, String, Range<usize>)| hit_view(h))
}

proof fn lemma_line_hits_props(lines: Seq<Seq<char>>, number: nat, offset: nat, start: nat, end: nat, clip: bool)
    ensures
        ({
            let hs = line_hits(lines, number, offset, start, end, clip);
            &&& forall|i: int| 0 <= i < hs.len() ==> (#[trigger] hs[i]).2 < hs[i].3 && hs[i].0 >= number
            &&& forall|i: int| 0 <= i < hs.len() ==> clip ==> (#[trigger] hs[i]).3 <= utf8_len(hs[i].1)
            &&& forall|i: int, j: int| 0 <= i < j < hs.len() ==> (#[trigger] hs[i]).0 < (#[trigger] hs[j]).0
        }),
    decreases lines.len(),
{
    if lines.len() > 0 {
        let rest = line_hits(lines.drop_first(), number + 1, offset + utf8_len(lines[0]), start, end, clip);
        lemma_line_hits_props(lines.drop_first(), number + 1, offset + utf8_len(lines[0]), start, end, clip);
        let hs = line_hits(lines, number, offset, start, end, clip);
        let line = trim_end(lines[0]);
        let limit = if clip {
            utf8_len(line)
        } else {
            utf8_len(lines[0])
        };
        let s0 = saturating_sub(start, offset);
        let e0 = if saturating_sub(end, offset) < limit {
            saturating_sub(end, offset)
        } else {
            limit
        };
        let head: Seq<SpecLineHit> = if s0 < e0 {
            seq![(number, line, s0, e0)]
        } else {
            Seq::empty()
        };
        assert(hs == head + rest);
        assert forall|i: int| 0 <= i < hs.len() implies (#[trigger] hs[i]).2 < hs[i].3 && hs[i].0 >= number
            && (clip ==> hs[i].3 <= utf8_len(hs[i].1)) by {
            if i >= head.len() {
                assert(hs[i] == rest[i - head.len()]);
            }
        }
        assert forall|i: int, j: int| 0 <= i < j < hs.len() implies (#[trigger] hs[i]).0 < (#[trigger] hs[j]).0 by {
            if i >= head.len() {
                assert(hs[i] == rest[i - head.len()]);
            }
            assert(hs[j] == rest[j - head.len()]);
        }
    }
}

/// The lines that a range touches come in order, each once, and in each the marked part
/// is not empty and, when cut to the line's text, lies within that text.
pub proof fn law_touched_lines_ordered(code: Seq<char>, range: Range<usize>, clip: bool)
    ensures
        ({
            let hs = lines_touched(code, range, clip);
            &&& forall|i: int| 0 <= i < hs.len() ==> (#[trigger] hs[i]).2 < hs[i].3
            &&& forall|i: int| 0 <= i < hs.len() ==> clip ==> (#[trigger] hs[i]).3 <= utf8_len(hs[i].1)
            &&& forall|i: int, j: int| 0 <= i < j < hs.len() ==> (#[trigger] hs[i]).0 < (#[trigger] hs[j]).0
        }),
{
    lemma_line_hits_props(split_lines(code), 0, 0, range.start as nat, range.end as nat, clip);
}

/// The length of the text of `cs` from `from` up to its trailing white space, at most `to`.
fn trimmed_end(cs: &Vec<char>, from: usize, to: usize) -> (r: usize)
    requires
        from <= to <= cs@.len(),
    ensures
        from <= r <= to,
        cs@.subrange(from as int, r as int) == trim_end(cs@.subrange(from as int, to as int)),
{
    let mut r = to;
    while r > from && char_is_white_space(cs[r - 1])
        invariant
            from <= r <= to <= cs@.len(),
            trim_end(cs@.subrange(from as int, r as int)) == trim_end(cs@.subrange(from as int, to as int)),
        decreases r,
    {
        assert(cs@.subrange(from as int, r as int).drop_last() =~= cs@.subrange(from as int, r - 1));
        r = r - 1;
    }
    r
}

/// The lines of `code` that `range` touches (see `lines_touched`).
fn collect_lines(code: &str, range: Range<usize>, clip: bool) -> (r: Vec<(usize, String, Range<usize>)>)
    ensures
        hits_view(r@) == lines_touched(code@, range, clip),
        forall|i: int| 0 <= i < r@.len() ==> (#[trigger] r@[i]).0 < usize::MAX && r@[i].2.start < r@[i].2.end,
{
    let cs = chars_of(code);
    let ghost all = cs@;
    let len = cs.len();
    let total = str_len(code);
    let mut result: Vec<(usize, String, Range<usize>)> = Vec::new();
    let mut p: usize = 0;
    let mut off: usize = 0;
    let mut number: usize = 0;
    assert(all.subrange(0, 0) =~= Seq::<char>::empty());
    assert(hits_view(result@) =~= Seq::empty());
    assert(all.subrange(0, len as int) =~= all);
    assert(Seq::<SpecLineHit>::empty() + lines_touched(code@, range, clip) =~= lines_touched(code@, range, clip));
    while p < len
        invariant
            cs@ == all,
            all == code@,
            len == all.len(),
            p <= len,
            number <= p,
            total == utf8_len(all),
            off == utf8_len(all.subrange(0, p as int)),
            hits_view(result@) + line_hits(split_lines(all.subrange(p as int, len as int)), number as nat, off as nat, range.start as nat, range.end as nat, clip)
                == lines_touched(code@, range, clip),
            forall|i: int| 0 <= i < result@.len() ==> (#[trigger] result@[i]).0 < usize::MAX && result@[i].2.start < result@[i].2.end,
        decreases len - p,
    {
        let ghost rest = all.subrange(p as int, len as int);
        let mut q = p;
        while q < len && cs[q] != '\n'
            invariant
                p <= q <= len,
                len == cs@.len(),
                forall|i: int| p <= i < q ==> cs@[i] != '\n',
            decreases len - q,
        {
            q = q + 1;
        }
        let line_end = if q < len {
            q + 1
        } else {
            q
        };
        proof {
            lemma_first_line_len(rest);
            let n = first_line_len(rest);
            if (n as int) < (line_end - p) {
                assert(rest[n - 1] == '\n');
                assert(rest[n - 1] == all[p + n - 1]);
            }
            if (n as int) > (line_end - p) {
                assert(rest[line_end - p - 1] == all[line_end - 1]);
            }
            assert(n == line_end - p);
            assert(split_lines(rest) == seq![rest.subrange(0, n as int)] + split_lines(rest.subrange(n as int, rest.len() as int)));
            assert(rest.subrange(0, n as int) =~= all.subrange(p as int, line_end as int));
            assert(rest.subrange(n as int, rest.len() as int) =~= all.subrange(line_end as int, len as int));
        }
        let t = trimmed_end(&cs, p, line_end);
        proof {
            lemma_utf8_len_split(all, p as int, line_end as int);
            lemma_utf8_len_split(all, p as int, t as int);
            lemma_utf8_len_split(all, 0, p as int);
            assert(all.subrange(0, p as int) =~= all.subrange(0, 0) + all.subrange(0, p as int));
        }
        let piece_bytes = bytes_of_range(&cs, p, line_end);
        let line_bytes = bytes_of_range(&cs, p, t);
        let start = if range.start > off {
            range.start - off
        } else {
            0
        };
        let end_in_line = if range.end > off {
            range.end - off
        } else {
            0
        };
        let limit = if clip {
            line_bytes
        } else {
            piece_bytes
        };
        let end = if end_in_line < limit {
            end_in_line
        } else {
            limit
        };
        let ghost piece = all.subrange(p as int, line_end as int);
        let ghost tail = split_lines(all.subrange(line_end as int, len as int));
        proof {
            assert(split_lines(rest).drop_first() =~= tail);
            assert(split_lines(rest)[0] == piece);
        }
        let ghost old_done = hits_view(result@);
        if start < end {
            let text = string_of_range(&cs, p, t);
            result.push((number, text, start..end));
            proof {
                assert(hits_view(result@) =~= old_done.push((number as nat, trim_end(piece), start as nat, end as nat)));
            }
        }
        proof {
            assert(hits_view(result@) + line_hits(tail, (number + 1) as nat, (off + utf8_len(piece)) as nat, range.start as nat, range.end as nat, clip)
                =~= old_done + line_hits(split_lines(rest), number as nat, off as nat, range.start as nat, range.end as nat, clip));
            lemma_utf8_len_append(all.subrange(0, p as int), piece);
            assert(all.subrange(0, p as int) + piece =~= all.subrange(0, line_end as int));
            lemma_utf8_len_split(all, 0, line_end as int);
            assert(all.subrange(0, 0) =~= Seq::<char>::empty());
        }
        p = line_end;
        off = off + piece_bytes;
        number = number + 1;
    }
    assert(line_hits(split_lines(all.subrange(len as int, len as int)), number as nat, off as nat, range.start as nat, range.end as nat, clip) =~= Seq::empty());
    assert(hits_view(result@) =~= lines_touched(code@, range, clip));
    result
}

/// An error found while lexing, parsing or compiling a program.
#[derive(Debug)]
pub enum CompilerError {
    SyntaxError(SyntaxError),
    UnexpectedTokenError(UnexpectedTokenError),
    MissingTokenError,
    MismatchedReturnTypeError(MismatchedReturnTypeError),
    MismatchedAssignTypeError(MismatchedAssignTypeError),
    InvalidDerefError(InvalidDerefError),
}

/// The mathematical value of a `CompilerError`.
pub enum SpecCompilerError {
    SyntaxError(SpecSyntaxError),
    UnexpectedTokenError(Range<usize>, SpecToken),
    MissingTokenError,
    MismatchedReturnTypeError(Seq<Seq<char>>, Option<SpecType>, Option<SpecType>, Range<usize>),
    MismatchedAssignTypeError(Range<usize>, Option<SpecType>, Range<usize>, Option<SpecType>),
    InvalidDerefError(Range<usize>, Option<SpecType>),
}

impl View for CompilerError {
    type V = SpecCompilerError;

    open spec fn view(&self) -> SpecCompilerError {
        match self {
            CompilerError::SyntaxError(e) => SpecCompilerError::SyntaxError(e@),
            CompilerError::UnexpectedTokenError(e) => SpecCompilerError::UnexpectedTokenError(
                e.range,
                e.found@,
            ),
            CompilerError::MissingTokenError => SpecCompilerError::MissingTokenError,
            CompilerError::MismatchedReturnTypeError(e) => SpecCompilerError::MismatchedReturnTypeError(
                e.function_name@,
                option_type_view(e.expected),
                option_type_view(e.actual),
                e.range,
            ),
            CompilerError::MismatchedAssignTypeError(e) => SpecCompilerError::MismatchedAssignTypeError(
                e.dst_range,
                option_type_view(e.dst_type),
                e.src_range,
                option_type_view(e.src_type),
            ),
            CompilerError::InvalidDerefError(e) => SpecCompilerError::InvalidDerefError(
                e.range,
                option_type_view(e.found),
            ),
        }
    }
}

/// The lines of `code` that `range` touches: each line's number (from 0), its text
/// without trailing white space, and the part of the range within that text. Positions
/// count bytes of the text's UTF-8 form.
pub fn lines_within_range(code: &str, range: Range<usize>) -> (r: Vec<(usize, String, Range<usize>)>)
    ensures
        hits_view(r@) == lines_touched(code@, range, true),
        forall|i: int| 0 <= i < r@.len() ==> (#[trigger] r@[i]).0 < usize::MAX && r@[i].2.start < r@[i].2.end,
{
    collect_lines(code, range, true)
}

/// The mathematical value of a touched line, given as number, range and text.
pub open spec fn ranged_hit_view(h: (usize, Range<usize>, String)) -> SpecLineHit {
    (h.0 as nat, h.2@, h.1.start as nat, h.1.end as nat)
}

/// The mathematical values of touched lines given as number, range and text.
pub open spec fn ranged_hits_view(v: Seq<(usize, Range<usize>, String)>) -> Seq<SpecLineHit> {
    v.map_values(|h: (usize, Range<usize>, String)| ranged_hit_view(h))
}

/// The lines of `code` that `range` touches: each line's number (from 0), the part of the
/// range within the line (its line break included), and its text without trailing
/// white space. Positions count bytes.
pub fn str_lines_within_range(code: &str, range: Range<usize>) -> (r: Vec<(usize, Range<usize>, String)>)
    ensures
        ranged_hits_view(r@) == lines_touched(code@, range, false),
        forall|i: int| 0 <= i < r@.len() ==> (#[trigger] r@[i]).0 < usize::MAX && r@[i].1.start < r@[i].1.end,
{
    let mut hits = collect_lines(code, range, false);
    let ghost all = hits_view(hits@);
    let mut result: Vec<(usize, Range<usize>, String)> = Vec::new();
    let mut i: usize = 0;
    let n = hits.len();
    while hits.len() > 0
        invariant
            i + hits@.len() == n,
            all.len() == n,
            hits_view(hits@) == all.subrange(i as int, n as int),
            ranged_hits_view(result@) == all.subrange(0, i as int),
            forall|j: int| 0 <= j < hits@.len() ==> (#[trigger] hits@[j]).0 < usize::MAX && hits@[j].2.start < hits@[j].2.end,
            forall|j: int| 0 <= j < result@.len() ==> (#[trigger] result@[j]).0 < usize::MAX && result@[j].1.start < result@[j].1.end,
        decreases hits@.len(),
    {
        let ghost old_hits = hits@;
        assert(old_hits[0].0 < usize::MAX && old_hits[0].2.start < old_hits[0].2.end);
        let (number, text, part) = hits.remove(0);
        let ghost old_result = ranged_hits_view(result@);
        assert(hits_view(old_hits)[0] == hit_view(old_hits[0]));
        assert(all.subrange(i as int, n as int)[0] == all[i as int]);
        assert(hits@ =~= old_hits.subrange(1, old_hits.len() as int));
        assert(hits_view(hits@) =~= hits_view(old_hits).subrange(1, old_hits.len() as int));
        assert forall|j: int| 0 <= j < hits@.len() implies (#[trigger] hits@[j]).0 < usize::MAX && hits@[j].2.start < hits@[j].2.end by {
            assert(hits@[j] == old_hits[j + 1]);
        }
        result.push((number, part, text));
        proof {
            assert(hit_view((number, text, part)) == all[i as int]);
            assert(ranged_hits_view(result@) =~= old_result.push(all[i as int]));
            assert(all.subrange(0, i + 1) =~= all.subrange(0, i as int).push(all[i as int]));
            assert(hits_view(hits@) =~= all.subrange(i + 1, n as int));
        }
        i = i + 1;
    }
    assert(all.subrange(0, n as int) =~= all);
    result
}

/// How a source line is shown in a report: `number | line` on one line, and under it the
/// marks under the highlighted part, after as many spaces as the part's start.
pub open spec fn highlighted(number: Seq<char>, bar: Seq<char>, line: Seq<char>, start: nat, marks: Seq<char>) -> Seq<char> {
    number + " "@ + bar + " "@ + line + "\n      "@ + bar + " "@ + repeated(' ', start) + marks + "\n"@
}

/// `shown` shows the touched line `h`: its number counted from 1, filled with zeros to
/// five digits, and the bar in bright blue, and a `^` under each highlighted character in
/// red (each either in colour or plain).
pub open spec fn shows_line(h: SpecLineHit, shown: Seq<char>) -> bool {
    exists|number: Seq<char>, bar: Seq<char>, marks: Seq<char>|
        #![trigger highlighted(number, bar, h.1, h.2, marks)]
        shows(decimal_text(h.0 + 1), HighlightColor::BrightBlue, 5, number)
            && shows("|"@, HighlightColor::BrightBlue, 0, bar)
            && shows(repeated('^', (h.3 - h.2) as nat), HighlightColor::Red, 0, marks)
            && shown == highlighted(number, bar, h.1, h.2, marks)
}

/// Texts one after the other.
pub open spec fn concat_texts(parts: Seq<Seq<char>>) -> Seq<char>
    decreases parts.len(),
{
    if parts.len() == 0 {
        Seq::empty()
    } else {
        concat_texts(parts.drop_last()) + parts.last()
    }
}

/// `shown` shows the touched lines `hs`, one after the other.
pub open spec fn shows_lines(hs: Seq<SpecLineHit>, shown: Seq<char>) -> bool {
    exists|parts: Seq<Seq<char>>|
        #![trigger concat_texts(parts)]
        parts.len() == hs.len() && (forall|i: int| 0 <= i < hs.len() ==> shows_line(#[trigger] hs[i], parts[i]))
            && shown == concat_texts(parts)
}

/// Shows one touched line (see `shows_line`).
fn highlight_line(number: usize, line: &str, start: usize, end: usize) -> (r: String)
    requires
        number < usize::MAX,
        start <= end,
    ensures
        shows_line((number as nat, line@, start as nat, end as nat), r@),
{
    let digits = decimal(number + 1);
    let num = paint(digits.as_str(), HighlightColor::BrightBlue, 5);
    let bar = paint("|", HighlightColor::BrightBlue, 0);
    let carets = repeat_char('^', end - start);
    let marks = paint(carets.as_str(), HighlightColor::Red, 0);
    let indent = repeat_char(' ', start);
    let mut r = num.clone();
    r.append(" ");
    r.append(bar.as_str());
    r.append(" ");
    r.append(line);
    r.append("\n      ");
    r.append(bar.as_str());
    r.append(" ");
    r.append(indent.as_str());
    r.append(marks.as_str());
    r.append("\n");
    proof {
        reveal_strlit(" ");
        reveal_strlit("\n      ");
        reveal_strlit("\n");
        assert(r@ =~= highlighted(num@, bar@, line@, start as nat, marks@));
        let h = (number as nat, line@, start as nat, end as nat);
        assert(shows(decimal_text(h.0 + 1), HighlightColor::BrightBlue, 5, num@));
        assert(shows(repeated('^', (h.3 - h.2) as nat), HighlightColor::Red, 0, marks@));
        assert(shows("|"@, HighlightColor::BrightBlue, 0, bar@));
        assert(h.1 == line@ && h.2 == start as nat);
        assert(r@ == highlighted(num@, bar@, h.1, h.2, marks@));
    }
    r
}

/// Shows the touched lines, one after the other: for each, `number | line`, and under it
/// a `^` under each character of its part (see `shows_lines`).
pub fn highlight_lines(lines: &[(usize, String, Range<usize>)]) -> (r: String)
    requires
        forall|i: int| 0 <= i < lines@.len() ==> (#[trigger] lines@[i]).0 < usize::MAX && lines@[i].2.start <= lines@[i].2.end,
    ensures
        shows_lines(hits_view(lines@), r@),
{
    let ghost hs = hits_view(lines@);
    let ghost mut parts: Seq<Seq<char>> = Seq::empty();
    let mut r = String::new();
    let mut i: usize = 0;
    while i < lines.len()
        invariant
            i <= lines@.len(),
            hs == hits_view(lines@),
            forall|j: int| 0 <= j < lines@.len() ==> (#[trigger] lines@[j]).0 < usize::MAX && lines@[j].2.start <= lines@[j].2.end,
            parts.len() == i,
            forall|j: int| 0 <= j < i ==> shows_line(#[trigger] hs[j], parts[j]),
            r@ == concat_texts(parts),
        decreases lines@.len() - i,
    {
        let (number, line, part) = &lines[i];
        let shown = highlight_line(*number, line.as_str(), part.start, part.end);
        r.append(shown.as_str());
        proof {
            assert(hs[i as int] == hit_view(lines@[i as int]));
            let old_parts = parts;
            parts = parts.push(shown@);
            assert(parts.drop_last() =~= old_parts);
            assert forall|j: int| 0 <= j < i + 1 implies shows_line(#[trigger] hs[j], parts[j]) by {
                if j < i {
                    assert(parts[j] == old_parts[j]);
                }
            }
        }
        i = i + 1;
    }
    assert(hs.len() == parts.len());
    r
}

/// Shows the given lines, one after the other, each with its number, range and text
/// (see `shows_lines`).
pub fn format_underline(underlines: Vec<(usize, Range<usize>, String)>) -> (r: String)
    requires
        forall|i: int| 0 <= i < underlines@.len() ==> (#[trigger] underlines@[i]).0 < usize::MAX && underlines@[i].1.start <= underlines@[i].1.end,
    ensures
        shows_lines(ranged_hits_view(underlines@), r@),
{
    let ghost hs = ranged_hits_view(underlines@);
    let ghost mut parts: Seq<Seq<char>> = Seq::empty();
    let mut r = String::new();
    let mut i: usize = 0;
    while i < underlines.len()
        invariant
            i <= underlines@.len(),
            hs == ranged_hits_view(underlines@),
            forall|j: int| 0 <= j < underlines@.len() ==> (#[trigger] underlines@[j]).0 < usize::MAX && underlines@[j].1.start <= underlines@[j].1.end,
            parts.len() == i,
            forall|j: int| 0 <= j < i ==> shows_line(#[trigger] hs[j], parts[j]),
            r@ == concat_texts(parts),
        decreases underlines@.len() - i,
    {
        let (number, part, line) = &underlines[i];
        let shown = highlight_line(*number, line.as_str(), part.start, part.end);
        r.append(shown.as_str());
        proof {
            assert(hs[i as int] == ranged_hit_view(underlines@[i as int]));
            let old_parts = parts;
            parts = parts.push(shown@);
            assert(parts.drop_last() =~= old_parts);
            assert forall|j: int| 0 <= j < i + 1 implies shows_line(#[trigger] hs[j], parts[j]) by {
                if j < i {
                    assert(parts[j] == old_parts[j]);
                }
            }
        }
        i = i + 1;
    }
    assert(hs.len() == parts.len());
    r
}

/// A report: the title, the message, a line break, and the shown lines.
pub open spec fn report_text(title: Seq<char>, message: Seq<char>, lines: Seq<char>) -> Seq<char> {
    title + message + "\n"@ + lines
}

/// `shown` is a report with `title` in red and `message` in bright white (each in colour
/// or plain), followed by the lines `hs` shown as `shows_lines` says.
pub open spec fn shows_report(title: Seq<char>, message: Seq<char>, hs: Seq<SpecLineHit>, shown: Seq<char>) -> bool {
    exists|t: Seq<char>, m: Seq<char>, u: Seq<char>|
        #![trigger report_text(t, m, u)]
        shows(title, HighlightColor::Red, 0, t) && shows(message, HighlightColor::BrightWhite, 0, m)
            && shows_lines(hs, u) && shown == report_text(t, m, u)
}

/// Puts together a report from its title, its message and its shown lines.
pub(crate) fn compose_report(title: &str, message: &str, lines: &str, Ghost(hs): Ghost<Seq<SpecLineHit>>) -> (r: String)
    requires
        shows_lines(hs, lines@),
    ensures
        shows_report(title@, message@, hs, r@),
{
    let t = paint(title, HighlightColor::Red, 0);
    let m = paint(message, HighlightColor::BrightWhite, 0);
    let mut r = t.clone();
    r.append(m.as_str());
    r.append("\n");
    r.append(lines);
    proof {
        reveal_strlit("\n");
        assert(r@ =~= report_text(t@, m@, lines@));
    }
    r
}

/// The index after `i`, wrapping to 0 past the largest `usize`.
pub open spec fn index_after(i: usize) -> usize {
    if i == usize::MAX {
        0
    } else {
        (i + 1) as usize
    }
}

/// The index after `i`, wrapping to 0 past the largest `usize`.
pub fn next_index(i: usize) -> (r: usize)
    ensures
        r == index_after(i),
{
    if i == usize::MAX {
        0
    } else {
        i + 1
    }
}

/// A line of text as `str::lines` gives it: without its `\n`, and without a `\r` just
/// before that `\n`.
pub open spec fn std_line(piece: Seq<char>) -> Seq<char> {
    if piece.len() > 0 && piece.last() == '\n' {
        let p = piece.drop_last();
        if p.len() > 0 && p.last() == '\r' {
            p.drop_last()
        } else {
            p
        }
    } else {
        piece
    }
}

/// The last line of `code`, marked just after its end (positions count bytes).
pub open spec fn last_line_hit(code: Seq<char>) -> SpecLineHit {
    let lines = split_lines(code);
    let line = std_line(lines.last());
    ((lines.len() - 1) as nat, line, utf8_len(line), utf8_len(line) + 1)
}

/// The message of a `MismatchedReturnTypeError`.
pub open spec fn return_type_message(name: Seq<Seq<char>>, expected: Option<SpecType>, actual: Option<SpecType>) -> Seq<char> {
    ": function '"@ + join_names(name) + "' has return value of type "@ + optional_type_text(expected)
        + ", found value of type "@ + optional_type_text(actual)
}

/// The message of an `UnexpectedTokenError`.
pub open spec fn unexpected_token_message(found: SpecToken) -> Seq<char> {
    ": found unexpected token '"@ + token_debug_text(found) + "'"@
}

/// Whether a report of `e` on `code` can be made: the syntax errors that have one, a
/// missing token in a text that has a last line, and the other errors of the parser and
/// of return types. Assignment and dereference errors have no report.
pub open spec fn reportable(e: SpecCompilerError, code: Seq<char>) -> bool {
    match e {
        SpecCompilerError::SyntaxError(x) => syntax_error_reportable(x),
        SpecCompilerError::UnexpectedTokenError(_, _) => true,
        SpecCompilerError::MissingTokenError => 0 < code.len() && utf8_len(code) < usize::MAX,
        SpecCompilerError::MismatchedReturnTypeError(_, _, _, _) => true,
        SpecCompilerError::MismatchedAssignTypeError(_, _, _, _) => false,
        SpecCompilerError::InvalidDerefError(_, _) => false,
    }
}

/// `shown` is the report of `e` on `code`: a title, a message, and the source lines
/// concerned, with the part at fault marked.
pub open spec fn error_report(e: SpecCompilerError, code: Seq<char>, shown: Seq<char>) -> bool {
    match e {
        SpecCompilerError::SyntaxError(x) => syntax_error_report(x, code, shown),
        SpecCompilerError::UnexpectedTokenError(range, found) => shows_report(
            "Syntax Error"@,
            unexpected_token_message(found),
            lines_touched(code, range, false),
            shown,
        ),
        SpecCompilerError::MissingTokenError => shows_report(
            "Syntax Error"@,
            ": unexpected ending"@,
            seq![last_line_hit(code)],
            shown,
        ),
        SpecCompilerError::MismatchedReturnTypeError(name, expected, actual, range) => shows_report(
            "Type Error"@,
            return_type_message(name, expected, actual),
            lines_touched(code, range, false),
            shown,
        ),
        _ => false,
    }
}

/// The first line of `all` from `p` ends at `line_end` (its `\n` included).
proof fn lemma_split_step(all: Seq<char>, p: int, q: int, line_end: int)
    requires
        0 <= p <= q <= all.len(),
        p < all.len(),
        forall|i: int| p <= i < q ==> all[i] != '\n',
        q == all.len() || all[q] == '\n',
        line_end == if q < all.len() { q + 1 } else { q },
    ensures
        split_lines(all.subrange(p, all.len() as int)) == seq![all.subrange(p, line_end)] + split_lines(
            all.subrange(line_end, all.len() as int),
        ),
{
    let rest = all.subrange(p, all.len() as int);
    lemma_first_line_len(rest);
    let n = first_line_len(rest);
    if (n as int) < (line_end - p) {
        assert(rest[n - 1] == '\n');
        assert(rest[n - 1] == all[p + n - 1]);
    }
    if (n as int) > (line_end - p) {
        assert(rest[line_end - p - 1] == all[line_end - 1]);
    }
    assert(n == line_end - p);
    assert(rest.subrange(0, n as int) =~= all.subrange(p, line_end));
    assert(rest.subrange(n as int, rest.len() as int) =~= all.subrange(line_end, all.len() as int));
}

/// The number, text and mark of the last line of `src` (see `last_line_hit`).
fn last_line(src: &str) -> (r: (usize, Range<usize>, String))
    requires
        0 < src@.len(),
        utf8_len(src@) < usize::MAX,
    ensures
        ranged_hit_view(r) == last_line_hit(src@),
        r.0 < usize::MAX,
        r.1.start <= r.1.end,
{
    let cs = chars_of(src);
    let ghost all = cs@;
    let len = cs.len();
    let mut p: usize = 0;
    let mut number: usize = 0;
    let mut last_start: usize = 0;
    let mut last_end: usize = 0;
    let ghost mut prefix: Seq<Seq<char>> = Seq::empty();
    assert(all.subrange(0, len as int) =~= all);
    while p < len
        invariant
            cs@ == all,
            len == all.len(),
            p <= len,
            number == prefix.len(),
            number <= p,
            split_lines(all) == prefix + split_lines(all.subrange(p as int, len as int)),
            prefix.len() > 0 ==> last_start <= last_end <= len && prefix.last() == all.subrange(
                last_start as int,
                last_end as int,
            ),
        decreases len - p,
    {
        let mut q = p;
        while q < len && cs[q] != '\n'
            invariant
                p <= q <= len,
                len == cs@.len(),
                forall|i: int| p <= i < q ==> cs@[i] != '\n',
            decreases len - q,
        {
            q = q + 1;
        }
        let line_end = if q < len {
            q + 1
        } else {
            q
        };
        proof {
            lemma_split_step(all, p as int, q as int, line_end as int);
            let old_prefix = prefix;
            prefix = prefix.push(all.subrange(p as int, line_end as int));
            assert(prefix + split_lines(all.subrange(line_end as int, len as int)) =~= old_prefix + split_lines(
                all.subrange(p as int, len as int),
            ));
        }
        last_start = p;
        last_end = line_end;
        p = line_end;
        number = number + 1;
    }
    proof {
        assert(all.subrange(len as int, len as int) =~= Seq::<char>::empty());
        assert(prefix + Seq::<Seq<char>>::empty() =~= prefix);
    }
    let mut e = last_end;
    if e > last_start && cs[e - 1] == '\n' {
        e = e - 1;
        if e > last_start && cs[e - 1] == '\r' {
            e = e - 1;
        }
    }
    proof {
        let piece = all.subrange(last_start as int, last_end as int);
        if last_end > last_start && all[last_end - 1] == '\n' {
            assert(piece.drop_last() =~= all.subrange(last_start as int, last_end - 1));
            if last_end - 1 > last_start && all[last_end - 2] == '\r' {
                assert(piece.drop_last().drop_last() =~= all.subrange(last_start as int, last_end - 2));
            }
        }
        assert(std_line(piece) =~= all.subrange(last_start as int, e as int));
    }
    let line = string_of_range(&cs, last_start, e);
    proof {
        lemma_utf8_len_split(all, last_start as int, e as int);
    }
    let width = bytes_of_range(&cs, last_start, e);
    (number - 1, width..width + 1, line)
}

impl CompilerError {
    /// The report of this error on the source `src` (see `error_report`).
    pub fn format(&self, src: &str) -> (r: String)
        requires
            reportable(self@, src@),
        ensures
            error_report(self@, src@, r@),
    {
        match self {
            CompilerError::SyntaxError(e) => e.format(src),
            CompilerError::UnexpectedTokenError(e) => {
                let lines = str_lines_within_range(src, e.range.start..e.range.end);
                let underlined = format_underline(lines);
                let mut message = String::from_str(": found unexpected token '");
                message.append(e.found.debug_text().as_str());
                message.append("'");
                proof {
                    reveal_strlit(": found unexpected token '");
                    reveal_strlit("'");
                    assert(message@ =~= unexpected_token_message(e.found@));
                    assert(e.range == (e.range.start..e.range.end));
                }
                compose_report("Syntax Error", message.as_str(), underlined.as_str(), Ghost(ranged_hits_view(lines@)))
            },
            CompilerError::MissingTokenError => {
                let hit = last_line(src);
                let ghost hv = ranged_hit_view(hit);
                let mut lines: Vec<(usize, Range<usize>, String)> = Vec::new();
                lines.push(hit);
                proof {
                    assert(ranged_hits_view(lines@) =~= seq![hv]);
                }
                let ghost hs = ranged_hits_view(lines@);
                let underlined = format_underline(lines);
                compose_report("Syntax Error", ": unexpected ending", underlined.as_str(), Ghost(hs))
            },
            CompilerError::MismatchedReturnTypeError(e) => {
                let lines = str_lines_within_range(src, e.range.start..e.range.end);
                let underlined = format_underline(lines);
                let mut message = String::from_str(": function '");
                message.append(e.function_name.to_string().as_str());
                message.append("' has return value of type ");
                message.append(format_type(&e.expected).as_str());
                message.append(", found value of type ");
                message.append(format_type(&e.actual).as_str());
                proof {
                    reveal_strlit(": function '");
                    reveal_strlit("' has return value of type ");
                    reveal_strlit(", found value of type ");
                    assert(message@ =~= return_type_message(e.function_name@, option_type_view(e.expected), option_type_view(e.actual)));
                    assert(e.range == (e.range.start..e.range.end));
                }
                compose_report("Type Error", message.as_str(), underlined.as_str(), Ghost(ranged_hits_view(lines@)))
            },
            _ => unreached(),
        }
    }
}

} // verus!
