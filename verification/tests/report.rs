use cerium::compiler::error::MismatchedReturnTypeError;
use cerium::error::invalid_character::InvalidCharacter;
use cerium::error::invalid_character_literal_length::InvalidCharacterLiteralLength;
use cerium::error::unexpected_eof::{Expected, UnexpectedEof};
use cerium::error::{format_underline, highlight_lines, lines_within_range, str_lines_within_range, CompilerError};
use cerium::lexer::error::SyntaxError;
use cerium::lexer::token::Token;
use cerium::parser::ast::Qualifier;
use cerium::parser::cerium_type::CeriumType;
use cerium::parser::UnexpectedTokenError;

// Colours are switched off for the whole process; one test below checks them on, in
// a process of its own (see report_colors.rs).
fn plain() {
    colored::control::set_override(false);
}

#[test]
fn lines_touched_by_a_range() {
    let lines = lines_within_range("ab\n  cd  \nef", 4..8);
    assert_eq!(lines, vec![(1, "  cd".to_string(), 1..4)]);
    let lines = str_lines_within_range("ab\n  cd  \nef", 4..8);
    assert_eq!(lines, vec![(1, 1..5, "  cd".to_string())]);
}

#[test]
fn range_over_several_lines() {
    let lines = lines_within_range("abc\ndef\nghi", 1..9);
    assert_eq!(
        lines,
        vec![(0, "abc".to_string(), 1..3), (1, "def".to_string(), 0..3), (2, "ghi".to_string(), 0..1)]
    );
    let lines = str_lines_within_range("abc\ndef\nghi", 1..9);
    assert_eq!(
        lines,
        vec![(0, 1..4, "abc".to_string()), (1, 0..4, "def".to_string()), (2, 0..1, "ghi".to_string())]
    );
}

#[test]
fn empty_ranges_touch_nothing() {
    assert!(lines_within_range("abc", 2..2).is_empty());
    assert!(lines_within_range("abc", 5..9).is_empty());
    assert!(lines_within_range("", 0..1).is_empty());
    // a range past the text of a line, on its trailing white space, touches nothing
    assert!(lines_within_range("ab  \ncd", 2..4).is_empty());
}

#[test]
fn highlighted_lines() {
    plain();
    let shown = highlight_lines(&[(1, "  cd".to_string(), 1..4)]);
    assert_eq!(shown, "00002 |   cd\n      |  ^^^\n");
    let shown = format_underline(vec![(0, 0..1, "x".to_string()), (123456, 2..3, "abc".to_string())]);
    assert_eq!(shown, "00001 | x\n      | ^\n123457 | abc\n      |   ^\n");
}

#[test]
fn invalid_character_report() {
    plain();
    let e = InvalidCharacter { found: '$', idx: 2 };
    assert_eq!(e.format("a $ b"), "Syntax Error: found unexpected character '$'\n00001 | a $ b\n      |   ^\n");
}

#[test]
fn literal_length_report_counts_bytes() {
    plain();
    let e = InvalidCharacterLiteralLength { indices: 0..5, literal: "123".to_string() };
    assert_eq!(
        e.format("'123'"),
        "Invalid Character Literal Length Error: character literal '123' has invalid length 3\n00001 | '123'\n      | ^^^^^\n"
    );
    let e = InvalidCharacterLiteralLength { indices: 0..4, literal: "éa".to_string() };
    assert!(e.format("'éa'").starts_with(
        "Invalid Character Literal Length Error: character literal 'éa' has invalid length 3\n"
    ));
}

#[test]
fn unexpected_eof_report() {
    plain();
    let e = UnexpectedEof { expected: Expected::Character(')') };
    assert_eq!(
        e.format("fn main(\n  "),
        "Unexpected Eof Error: expected ')', found nothing\n00001 | fn main(\n      |        ^\n"
    );
    let e = UnexpectedEof { expected: Expected::Identifier };
    assert_eq!(e.format("   "), "Unexpected Eof Error: expected identifier, found nothing\n");
    assert_eq!(Expected::Literal.to_string(), "literal");
    assert_eq!(Expected::Number.to_string(), "number");
}

#[test]
fn syntax_error_reports_its_cause() {
    plain();
    let e = CompilerError::SyntaxError(SyntaxError::InvalidCharacter(InvalidCharacter { found: '#', idx: 0 }));
    assert_eq!(e.format("#"), "Syntax Error: found unexpected character '#'\n00001 | #\n      | ^\n");
}

#[test]
fn unexpected_token_report() {
    plain();
    let e = CompilerError::UnexpectedTokenError(UnexpectedTokenError { range: 3..4, found: Token::UnsignedInt(5) });
    assert_eq!(e.format("fn 5"), "Syntax Error: found unexpected token 'UnsignedInt(5)'\n00001 | fn 5\n      |    ^\n");
    let e = CompilerError::UnexpectedTokenError(UnexpectedTokenError {
        range: 0..3,
        found: Token::Ident("abc".to_string()),
    });
    assert_eq!(
        e.format("abc"),
        "Syntax Error: found unexpected token 'Ident(\"abc\")'\n00001 | abc\n      | ^^^\n"
    );
}

#[test]
fn missing_token_report_marks_the_end() {
    plain();
    assert_eq!(
        CompilerError::MissingTokenError.format("fn main(\r\n"),
        "Syntax Error: unexpected ending\n00001 | fn main(\n      |         ^\n"
    );
    assert_eq!(
        CompilerError::MissingTokenError.format("a\nb\n"),
        "Syntax Error: unexpected ending\n00002 | b\n      |  ^\n"
    );
}

#[test]
fn return_type_report() {
    plain();
    let e = CompilerError::MismatchedReturnTypeError(MismatchedReturnTypeError {
        function_name: Qualifier::from(vec!["a".to_string(), "b".to_string()]),
        expected: Some(CeriumType::U16),
        actual: None,
        range: 0..2,
    });
    assert_eq!(
        e.format("ab\ncd"),
        "Type Error: function 'a::b' has return value of type u16, found value of type unit\n00001 | ab\n      | ^^\n"
    );
}

#[test]
fn positions_count_bytes() {
    assert!(lines_within_range("\u{e9}\nb", 2..3).is_empty());
    assert_eq!(lines_within_range("\u{e9}\nb", 3..4), vec![(1, "b".to_string(), 0..1)]);
    assert_eq!(str_lines_within_range("\u{e9}x", 2..3), vec![(0, 2..3, "\u{e9}x".to_string())]);
}

#[test]
fn missing_token_after_non_ascii_line() {
    plain();
    assert_eq!(
        CompilerError::MissingTokenError.format("\u{e9}"),
        "Syntax Error: unexpected ending\n00001 | \u{e9}\n      |   ^\n"
    );
}

#[test]
fn unexpected_eof_counts_bytes() {
    plain();
    let e = UnexpectedEof { expected: Expected::Identifier };
    assert_eq!(
        e.format("\u{e9} x  "),
        "Unexpected Eof Error: expected identifier, found nothing\n00001 | \u{e9} x\n      |    ^\n"
    );
}
