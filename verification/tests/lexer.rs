use cerium::error::invalid_character::InvalidCharacter;
use cerium::error::unexpected_eof::{Expected, UnexpectedEof};
use cerium::lexer::error::SyntaxError;
use cerium::lexer::token::Token;
use cerium::lexer::Lexer;
use std::ops::Range;

fn lex_all(code: &str) -> Vec<Result<(Range<usize>, Token), SyntaxError>> {
    let mut lexer = Lexer::new(code);
    let mut items = Vec::new();
    while let Some(item) = lexer.next() {
        items.push(item);
    }
    items
}

fn tokens(code: &str) -> Vec<(Range<usize>, Token)> {
    lex_all(code).into_iter().map(|item| item.expect("a token")).collect()
}

fn debug_texts(code: &str) -> Vec<String> {
    tokens(code).iter().map(|(_, t)| format!("{t:?}")).collect()
}

#[test]
fn keywords_and_identifiers() {
    let toks = tokens("fn main let x_1 true false nullptr const asm struct iter");
    let names: Vec<String> = toks.iter().map(|(_, t)| format!("{t:?}")).collect();
    assert_eq!(
        names,
        vec![
            "Fn", "Ident(\"main\")", "Let", "Ident(\"x_1\")", "True", "False", "Nullptr", "Const",
            "Asm", "Struct", "Iter"
        ]
    );
    assert_eq!(toks[0].0, 0..2);
    assert_eq!(toks[1].0, 3..7);
    assert_eq!(toks[3].0, 12..15);
}

#[test]
fn type_keywords() {
    assert_eq!(
        debug_texts("any u16 i16 f16 bool as alias for to while loop break continue if else"),
        vec![
            "Any", "U16", "I16", "F16", "Bool", "As", "Alias", "For", "To", "While", "Loop", "Break",
            "Continue", "If", "Else"
        ]
    );
}

#[test]
fn operators() {
    assert_eq!(
        debug_texts("+ -> - * / ! != ( ) [ ] { } :: : ; , . == = <= << < >= >> > || | && & ^"),
        vec![
            "Plus", "Arrow", "Minus", "Asterisk", "Slash", "Bang", "NotEquals", "LParen", "RParen",
            "LBracket", "RBracket", "LBrace", "RBrace", "Scope", "Colon", "Semicolon", "Comma", "Dot",
            "Equals", "Assign", "LessThanEquals", "LShift", "LessThan", "GreaterThanEquals", "RShift",
            "GreaterThan", "Or", "Pipe", "And", "Ampersand", "Circumflex"
        ]
    );
}

#[test]
fn operator_ranges() {
    let toks = tokens("a::b -> c");
    let ranges: Vec<Range<usize>> = toks.iter().map(|(r, _)| r.clone()).collect();
    assert_eq!(ranges, vec![0..1, 1..3, 3..4, 5..7, 8..9]);
}

#[test]
fn unsigned_numbers() {
    let toks = tokens("42 1_000 65536");
    assert_eq!(toks[0].0, 0..2);
    assert!(matches!(toks[0].1, Token::UnsignedInt(42)));
    assert_eq!(toks[1].0, 3..8);
    assert!(matches!(toks[1].1, Token::UnsignedInt(1000)));
    // the value is kept modulo 2^16
    assert!(matches!(toks[2].1, Token::UnsignedInt(0)));
}

#[test]
fn float_numbers() {
    let toks = tokens("3.25 7.");
    assert_eq!(toks[0].0, 0..4);
    match &toks[0].1 {
        Token::Float(f) => {
            assert_eq!(f.whole, 3);
            assert_eq!(f.fraction, "25");
        }
        other => panic!("unexpected {other:?}"),
    }
    match &toks[1].1 {
        Token::Float(f) => {
            assert_eq!(f.whole, 7);
            assert_eq!(f.fraction, "");
        }
        other => panic!("unexpected {other:?}"),
    }
    // the end of `7.` stays at the last digit
    assert_eq!(toks[1].0, 5..6);
}

#[test]
fn signed_numbers() {
    let mut lexer = Lexer::new("-12 +7 - x ->");
    let (r, t) = lexer.next_signed().unwrap().unwrap();
    assert_eq!(r, 0..3);
    assert!(matches!(t, Token::SignedInt(-12)));
    let (r, t) = lexer.next_signed().unwrap().unwrap();
    assert_eq!(r, 4..6);
    assert!(matches!(t, Token::SignedInt(7)));
    let (r, t) = lexer.next_signed().unwrap().unwrap();
    assert_eq!(r, 7..8);
    assert!(matches!(t, Token::Minus));
    let (_, t) = lexer.next_signed().unwrap().unwrap();
    assert!(matches!(t, Token::Ident(_)));
    let (r, t) = lexer.next_signed().unwrap().unwrap();
    assert_eq!(r, 11..13);
    assert!(matches!(t, Token::Arrow));
    assert!(lexer.next_signed().is_none());
}

#[test]
fn signed_numbers_wrap() {
    let mut lexer = Lexer::new("-32768 +32768 +70000");
    let (_, t) = lexer.next_signed().unwrap().unwrap();
    assert!(matches!(t, Token::SignedInt(-32768)));
    let (_, t) = lexer.next_signed().unwrap().unwrap();
    assert!(matches!(t, Token::SignedInt(-32768)));
    let (_, t) = lexer.next_signed().unwrap().unwrap();
    // 70000 modulo 2^16 is 4464
    assert!(matches!(t, Token::SignedInt(4464)));
}

#[test]
fn char_literals() {
    // the content is read up to and including a quote, and another quote closes the literal
    let toks = tokens(r"'a'' '\n'' '\'''");
    assert_eq!(toks[0].0, 0..4);
    assert!(matches!(toks[0].1, Token::CharLiteral('a')));
    assert_eq!(toks[1].0, 5..10);
    assert!(matches!(toks[1].1, Token::CharLiteral('\n')));
    assert_eq!(toks[2].0, 11..16);
    assert!(matches!(toks[2].1, Token::CharLiteral('\'')));
}

#[test]
fn char_literal_needs_a_second_quote() {
    let items = lex_all("'a' ");
    match &items[0] {
        Err(SyntaxError::UnexpectedCharacter(e)) => {
            assert_eq!(e.expected, '\'');
            assert_eq!(e.actual, ' ');
            assert_eq!(e.idx, 3);
        }
        other => panic!("unexpected {other:?}"),
    }
    let items = lex_all("'a'");
    assert!(matches!(
        items[0],
        Err(SyntaxError::UnexpectedEof(UnexpectedEof { expected: Expected::Character('\'') }))
    ));
}

#[test]
fn char_literal_length_error() {
    let items = lex_all("'123''");
    match &items[0] {
        Err(SyntaxError::InvalidCharacterLiteralLength(e)) => {
            assert_eq!(e.indices, 0..6);
            assert_eq!(e.literal, "123");
        }
        other => panic!("unexpected {other:?}"),
    }
}

#[test]
fn string_literal_ends_at_single_quote() {
    // the content of a string literal is read up to a single quote
    let toks = tokens("\"ab'\"");
    assert_eq!(toks[0].0, 0..5);
    match &toks[0].1 {
        Token::String(s) => assert_eq!(s, "ab"),
        other => panic!("unexpected {other:?}"),
    }
}

#[test]
fn unterminated_literal() {
    let items = lex_all("'ab");
    assert!(matches!(
        items[0],
        Err(SyntaxError::UnexpectedEof(UnexpectedEof { expected: Expected::Literal }))
    ));
}

#[test]
fn unexpected_character_after_string() {
    let items = lex_all("\"ab'x");
    match &items[0] {
        Err(SyntaxError::UnexpectedCharacter(e)) => {
            assert_eq!(e.expected, '"');
            assert_eq!(e.actual, 'x');
            assert_eq!(e.idx, 4);
        }
        other => panic!("unexpected {other:?}"),
    }
}

#[test]
fn invalid_character() {
    let items = lex_all("a $ b");
    assert!(matches!(items[0], Ok((_, Token::Ident(_)))));
    assert!(matches!(
        items[1],
        Err(SyntaxError::InvalidCharacter(InvalidCharacter { found: '$', idx: 2 }))
    ));
    assert!(matches!(items[2], Ok((_, Token::Ident(_)))));
    assert_eq!(items.len(), 3);
}

#[test]
fn comments_are_skipped() {
    let toks = tokens("a // comment\n b");
    assert_eq!(toks.len(), 2);
    assert_eq!(toks[1].0, 14..15);
}

#[test]
fn unicode_whitespace_is_skipped() {
    let toks = tokens("a\u{3000}\u{2028}b");
    assert_eq!(toks.len(), 2);
    assert_eq!(toks[1].0, 3..4);
}

#[test]
fn signs_are_operators_for_next() {
    let mut a = Lexer::new("-5");
    assert!(matches!(a.next(), Some(Ok((r, Token::Minus))) if r == (0..1)));
    assert!(matches!(a.next(), Some(Ok((r, Token::UnsignedInt(5)))) if r == (1..2)));
    assert!(a.next().is_none());
    assert!(a.next().is_none());
    let mut b = Lexer::new("+5");
    assert!(matches!(b.next(), Some(Ok((r, Token::Plus))) if r == (0..1)));
    assert!(matches!(b.next(), Some(Ok((r, Token::UnsignedInt(5)))) if r == (1..2)));
}

#[test]
fn after_a_comment_signs_are_operators() {
    let mut a = Lexer::new("// note\n-5");
    assert!(matches!(a.next_signed(), Some(Ok((_, Token::Minus)))));
    assert!(matches!(a.next_signed(), Some(Ok((_, Token::UnsignedInt(5))))));
}

#[test]
fn empty_source() {
    assert!(lex_all("").is_empty());
    assert!(lex_all(" \n\t ").is_empty());
}

#[test]
fn token_debug_text_matches_derived_debug() {
    for (_, t) in tokens("abc 12 3.5 'x'' \"s'\" fn +") {
        assert_eq!(t.debug_text(), format!("{t:?}"));
    }
}

#[test]
fn signs_only_matter_before_digits() {
    for code in ["  + x", "->", "- y", "+", "abc", "12"] {
        let mut plain = Lexer::new(code);
        let mut signed = Lexer::new(code);
        let a = plain.next().map(|r| format!("{r:?}"));
        let b = signed.next_signed().map(|r| format!("{r:?}"));
        assert_eq!(a, b, "on {code:?}");
    }
}
