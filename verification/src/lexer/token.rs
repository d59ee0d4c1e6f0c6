//! The tokens that the lexer produces.
use crate::text::{decimal, decimal_text, signed_decimal, signed_decimal_text};
use vstd::prelude::*;
use vstd::string::*;

verus! {

/// A number literal with a fractional part, kept as the digits it was written
/// with: the integral part (accumulated modulo 2^32) and the digits after the
/// point, in order, without separating underscores.
#[derive(Debug)]
pub struct FloatLiteral {
    pub whole: u32,
    pub fraction: String,
}

/// The mathematical value of a `FloatLiteral`.
pub struct SpecFloatLiteral {
    pub whole: u32,
    pub fraction: Seq<char>,
}

impl View for FloatLiteral {
    type V = SpecFloatLiteral;

    open spec fn view(&self) -> SpecFloatLiteral {
        SpecFloatLiteral { whole: self.whole, fraction: self.fraction@ }
    }
}

impl FloatLiteral {
    /// A copy of this literal.
    pub fn duplicate(&self) -> (r: FloatLiteral)
        ensures
            r == *self,
    {
        FloatLiteral { whole: self.whole, fraction: self.fraction.clone() }
    }
}

/// A lexical token.
#[derive(Debug)]
pub enum Token {
    Ident(String),
    Float(FloatLiteral),
    SignedInt(i16),
    UnsignedInt(u16),
    CharLiteral(char),
    String(String),
    True,
    False,
    Nullptr,
    Any,
    U16,
    I16,
    F16,
    Bool,
    Char,
    LParen,
    RParen,
    LBracket,
    RBracket,
    LBrace,
    RBrace,
    LShift,
    RShift,
    And,
    Or,
    Plus,
    Minus,
    Asterisk,
    Slash,
    Pipe,
    Loop,
    Break,
    Continue,
    Asm,
    Fn,
    Struct,
    Iter,
    Circumflex,
    Bang,
    Ampersand,
    Scope,
    Assign,
    Arrow,
    Let,
    Const,
    Mut,
    If,
    Else,
    For,
    To,
    DownTo,
    In,
    While,
    LessThan,
    GreaterThan,
    GreaterThanEquals,
    LessThanEquals,
    Equals,
    NotEquals,
    As,
    Alias,
    Dot,
    Comma,
    Colon,
    Semicolon,
}

/// The mathematical value of a `Token`: text is a sequence of characters.
pub enum SpecToken {
    Ident(Seq<char>),
    Float(SpecFloatLiteral),
    SignedInt(i16),
    UnsignedInt(u16),
    CharLiteral(char),
    String(Seq<char>),
    True,
    False,
    Nullptr,
    Any,
    U16,
    I16,
    F16,
    Bool,
    Char,
    LParen,
    RParen,
    LBracket,
    RBracket,
    LBrace,
    RBrace,
    LShift,
    RShift,
    And,
    Or,
    Plus,
    Minus,
    Asterisk,
    Slash,
    Pipe,
    Loop,
    Break,
    Continue,
    Asm,
    Fn,
    Struct,
    Iter,
    Circumflex,
    Bang,
    Ampersand,
    Scope,
    Assign,
    Arrow,
    Let,
    Const,
    Mut,
    If,
    Else,
    For,
    To,
    DownTo,
    In,
    While,
    LessThan,
    GreaterThan,
    GreaterThanEquals,
    LessThanEquals,
    Equals,
    NotEquals,
    As,
    Alias,
    Dot,
    Comma,
    Colon,
    Semicolon,
}

impl View for Token {
    type V = SpecToken;

    open spec fn view(&self) -> SpecToken {
        match self {
            Token::Ident(s) => SpecToken::Ident(s@),
            Token::Float(f) => SpecToken::Float(f@),
            Token::SignedInt(v) => SpecToken::SignedInt(*v),
            Token::UnsignedInt(v) => SpecToken::UnsignedInt(*v),
            Token::CharLiteral(c) => SpecToken::CharLiteral(*c),
            Token::String(s) => SpecToken::String(s@),
            Token::True => SpecToken::True,
            Token::False => SpecToken::False,
            Token::Nullptr => SpecToken::Nullptr,
            Token::Any => SpecToken::Any,
            Token::U16 => SpecToken::U16,
            Token::I16 => SpecToken::I16,
            Token::F16 => SpecToken::F16,
            Token::Bool => SpecToken::Bool,
            Token::Char => SpecToken::Char,
            Token::LParen => SpecToken::LParen,
            Token::RParen => SpecToken::RParen,
            Token::LBracket => SpecToken::LBracket,
            Token::RBracket => SpecToken::RBracket,
            Token::LBrace => SpecToken::LBrace,
            Token::RBrace => SpecToken::RBrace,
            Token::LShift => SpecToken::LShift,
            Token::RShift => SpecToken::RShift,
            Token::And => SpecToken::And,
            Token::Or => SpecToken::Or,
            Token::Plus => SpecToken::Plus,
            Token::Minus => SpecToken::Minus,
            Token::Asterisk => SpecToken::Asterisk,
            Token::Slash => SpecToken::Slash,
            Token::Pipe => SpecToken::Pipe,
            Token::Loop => SpecToken::Loop,
            Token::Break => SpecToken::Break,
            Token::Continue => SpecToken::Continue,
            Token::Asm => SpecToken::Asm,
            Token::Fn => SpecToken::Fn,
            Token::Struct => SpecToken::Struct,
            Token::Iter => SpecToken::Iter,
            Token::Circumflex => SpecToken::Circumflex,
            Token::Bang => SpecToken::Bang,
            Token::Ampersand => SpecToken::Ampersand,
            Token::Scope => SpecToken::Scope,
            Token::Assign => SpecToken::Assign,
            Token::Arrow => SpecToken::Arrow,
            Token::Let => SpecToken::Let,
            Token::Const => SpecToken::Const,
            Token::Mut => SpecToken::Mut,
            Token::If => SpecToken::If,
            Token::Else => SpecToken::Else,
            Token::For => SpecToken::For,
            Token::To => SpecToken::To,
            Token::DownTo => SpecToken::DownTo,
            Token::In => SpecToken::In,
            Token::While => SpecToken::While,
            Token::LessThan => SpecToken::LessThan,
            Token::GreaterThan => SpecToken::GreaterThan,
            Token::GreaterThanEquals => SpecToken::GreaterThanEquals,
            Token::LessThanEquals => SpecToken::LessThanEquals,
            Token::Equals => SpecToken::Equals,
            Token::NotEquals => SpecToken::NotEquals,
            Token::As => SpecToken::As,
            Token::Alias => SpecToken::Alias,
            Token::Dot => SpecToken::Dot,
            Token::Comma => SpecToken::Comma,
            Token::Colon => SpecToken::Colon,
            Token::Semicolon => SpecToken::Semicolon,
        }
    }
}

impl Token {
    /// A copy of this token.
    pub fn duplicate(&self) -> (r: Token)
        ensures
            r == *self,
    {
        match self {
            Token::Ident(s) => Token::Ident(s.clone()),
            Token::Float(f) => Token::Float(f.duplicate()),
            Token::SignedInt(v) => Token::SignedInt(*v),
            Token::UnsignedInt(v) => Token::UnsignedInt(*v),
            Token::CharLiteral(c) => Token::CharLiteral(*c),
            Token::String(s) => Token::String(s.clone()),
            Token::True => Token::True,
            Token::False => Token::False,
            Token::Nullptr => Token::Nullptr,
            Token::Any => Token::Any,
            Token::U16 => Token::U16,
            Token::I16 => Token::I16,
            Token::F16 => Token::F16,
            Token::Bool => Token::Bool,
            Token::Char => Token::Char,
            Token::LParen => Token::LParen,
            Token::RParen => Token::RParen,
            Token::LBracket => Token::LBracket,
            Token::RBracket => Token::RBracket,
            Token::LBrace => Token::LBrace,
            Token::RBrace => Token::RBrace,
            Token::LShift => Token::LShift,
            Token::RShift => Token::RShift,
            Token::And => Token::And,
            Token::Or => Token::Or,
            Token::Plus => Token::Plus,
            Token::Minus => Token::Minus,
            Token::Asterisk => Token::Asterisk,
            Token::Slash => Token::Slash,
            Token::Pipe => Token::Pipe,
            Token::Loop => Token::Loop,
            Token::Break => Token::Break,
            Token::Continue => Token::Continue,
            Token::Asm => Token::Asm,
            Token::Fn => Token::Fn,
            Token::Struct => Token::Struct,
            Token::Iter => Token::Iter,
            Token::Circumflex => Token::Circumflex,
            Token::Bang => Token::Bang,
            Token::Ampersand => Token::Ampersand,
            Token::Scope => Token::Scope,
            Token::Assign => Token::Assign,
            Token::Arrow => Token::Arrow,
            Token::Let => Token::Let,
            Token::Const => Token::Const,
            Token::Mut => Token::Mut,
            Token::If => Token::If,
            Token::Else => Token::Else,
            Token::For => Token::For,
            Token::To => Token::To,
            Token::DownTo => Token::DownTo,
            Token::In => Token::In,
            Token::While => Token::While,
            Token::LessThan => Token::LessThan,
            Token::GreaterThan => Token::GreaterThan,
            Token::GreaterThanEquals => Token::GreaterThanEquals,
            Token::LessThanEquals => Token::LessThanEquals,
            Token::Equals => Token::Equals,
            Token::NotEquals => Token::NotEquals,
            Token::As => Token::As,
            Token::Alias => Token::Alias,
            Token::Dot => Token::Dot,
            Token::Comma => Token::Comma,
            Token::Colon => Token::Colon,
            Token::Semicolon => Token::Semicolon,
        }
    }
}

/// Whether a token carries no text or value: a keyword, operator or delimiter.
pub open spec fn is_symbol(t: SpecToken) -> bool {
    !(t is Ident || t is Float || t is SignedInt || t is UnsignedInt || t is CharLiteral || t is String)
}

impl Token {
    /// Whether this token is the keyword, operator or delimiter `symbol`.
    pub fn is(&self, symbol: &Token) -> (r: bool)
        requires
            is_symbol(symbol@),
        ensures
            r == (self@ == symbol@),
    {
        match symbol {
            Token::True => matches!(self, Token::True),
            Token::False => matches!(self, Token::False),
            Token::Nullptr => matches!(self, Token::Nullptr),
            Token::Any => matches!(self, Token::Any),
            Token::U16 => matches!(self, Token::U16),
            Token::I16 => matches!(self, Token::I16),
            Token::F16 => matches!(self, Token::F16),
            Token::Bool => matches!(self, Token::Bool),
            Token::Char => matches!(self, Token::Char),
            Token::LParen => matches!(self, Token::LParen),
            Token::RParen => matches!(self, Token::RParen),
            Token::LBracket => matches!(self, Token::LBracket),
            Token::RBracket => matches!(self, Token::RBracket),
            Token::LBrace => matches!(self, Token::LBrace),
            Token::RBrace => matches!(self, Token::RBrace),
            Token::LShift => matches!(self, Token::LShift),
            Token::RShift => matches!(self, Token::RShift),
            Token::And => matches!(self, Token::And),
            Token::Or => matches!(self, Token::Or),
            Token::Plus => matches!(self, Token::Plus),
            Token::Minus => matches!(self, Token::Minus),
            Token::Asterisk => matches!(self, Token::Asterisk),
            Token::Slash => matches!(self, Token::Slash),
            Token::Pipe => matches!(self, Token::Pipe),
            Token::Loop => matches!(self, Token::Loop),
            Token::Break => matches!(self, Token::Break),
            Token::Continue => matches!(self, Token::Continue),
            Token::Asm => matches!(self, Token::Asm),
            Token::Fn => matches!(self, Token::Fn),
            Token::Struct => matches!(self, Token::Struct),
            Token::Iter => matches!(self, Token::Iter),
            Token::Circumflex => matches!(self, Token::Circumflex),
            Token::Bang => matches!(self, Token::Bang),
            Token::Ampersand => matches!(self, Token::Ampersand),
            Token::Scope => matches!(self, Token::Scope),
            Token::Assign => matches!(self, Token::Assign),
            Token::Arrow => matches!(self, Token::Arrow),
            Token::Let => matches!(self, Token::Let),
            Token::Const => matches!(self, Token::Const),
            Token::Mut => matches!(self, Token::Mut),
            Token::If => matches!(self, Token::If),
            Token::Else => matches!(self, Token::Else),
            Token::For => matches!(self, Token::For),
            Token::To => matches!(self, Token::To),
            Token::DownTo => matches!(self, Token::DownTo),
            Token::In => matches!(self, Token::In),
            Token::While => matches!(self, Token::While),
            Token::LessThan => matches!(self, Token::LessThan),
            Token::GreaterThan => matches!(self, Token::GreaterThan),
            Token::GreaterThanEquals => matches!(self, Token::GreaterThanEquals),
            Token::LessThanEquals => matches!(self, Token::LessThanEquals),
            Token::Equals => matches!(self, Token::Equals),
            Token::NotEquals => matches!(self, Token::NotEquals),
            Token::As => matches!(self, Token::As),
            Token::Alias => matches!(self, Token::Alias),
            Token::Dot => matches!(self, Token::Dot),
            Token::Comma => matches!(self, Token::Comma),
            Token::Colon => matches!(self, Token::Colon),
            Token::Semicolon => matches!(self, Token::Semicolon),
            _ => false,
        }
    }
}

/// What `{:?}` writes for a string slice (the `Debug` of `str`).
pub uninterp spec fn str_debug_text(s: Seq<char>) -> Seq<char>;

/// What `{:?}` writes for a character (the `Debug` of `char`).
pub uninterp spec fn char_debug_text(c: char) -> Seq<char>;

/// `format!("{:?}", s)`: std's `Debug` of a string slice, which quotes and escapes it.
/// The text it writes is named, not spelled out here.
#[verifier::external_body]
fn debug_str(s: &str) -> (r: String)
    ensures
        r@ == str_debug_text(s@),
{
    format!("{:?}", s)
}

/// `format!("{:?}", c)`: std's `Debug` of a character, which quotes and escapes it.
/// The text it writes is named, not spelled out here.
#[verifier::external_body]
fn debug_char(c: char) -> (r: String)
    ensures
        r@ == char_debug_text(c),
{
    format!("{:?}", c)
}

/// The text of a token as a derived `Debug` writes it: the variant's name, followed by
/// its contents in parentheses.
pub open spec fn token_debug_text(t: SpecToken) -> Seq<char> {
    match t {
        SpecToken::Ident(s) => "Ident("@ + str_debug_text(s) + ")"@,
        SpecToken::Float(f) => "Float(FloatLiteral { whole: "@ + decimal_text(f.whole as nat) + ", fraction: "@
            + str_debug_text(f.fraction) + " })"@,
        SpecToken::SignedInt(v) => "SignedInt("@ + signed_decimal_text(v as int) + ")"@,
        SpecToken::UnsignedInt(v) => "UnsignedInt("@ + decimal_text(v as nat) + ")"@,
        SpecToken::CharLiteral(c) => "CharLiteral("@ + char_debug_text(c) + ")"@,
        SpecToken::String(s) => "String("@ + str_debug_text(s) + ")"@,
        SpecToken::True => "True"@,
        SpecToken::False => "False"@,
        SpecToken::Nullptr => "Nullptr"@,
        SpecToken::Any => "Any"@,
        SpecToken::U16 => "U16"@,
        SpecToken::I16 => "I16"@,
        SpecToken::F16 => "F16"@,
        SpecToken::Bool => "Bool"@,
        SpecToken::Char => "Char"@,
        SpecToken::LParen => "LParen"@,
        SpecToken::RParen => "RParen"@,
        SpecToken::LBracket => "LBracket"@,
        SpecToken::RBracket => "RBracket"@,
        SpecToken::LBrace => "LBrace"@,
        SpecToken::RBrace => "RBrace"@,
        SpecToken::LShift => "LShift"@,
        SpecToken::RShift => "RShift"@,
        SpecToken::And => "And"@,
        SpecToken::Or => "Or"@,
        SpecToken::Plus => "Plus"@,
        SpecToken::Minus => "Minus"@,
        SpecToken::Asterisk => "Asterisk"@,
        SpecToken::Slash => "Slash"@,
        SpecToken::Pipe => "Pipe"@,
        SpecToken::Loop => "Loop"@,
        SpecToken::Break => "Break"@,
        SpecToken::Continue => "Continue"@,
        SpecToken::Asm => "Asm"@,
        SpecToken::Fn => "Fn"@,
        SpecToken::Struct => "Struct"@,
        SpecToken::Iter => "Iter"@,
        SpecToken::Circumflex => "Circumflex"@,
        SpecToken::Bang => "Bang"@,
        SpecToken::Ampersand => "Ampersand"@,
        SpecToken::Scope => "Scope"@,
        SpecToken::Assign => "Assign"@,
        SpecToken::Arrow => "Arrow"@,
        SpecToken::Let => "Let"@,
        SpecToken::Const => "Const"@,
        SpecToken::Mut => "Mut"@,
        SpecToken::If => "If"@,
        SpecToken::Else => "Else"@,
        SpecToken::For => "For"@,
        SpecToken::To => "To"@,
        SpecToken::DownTo => "DownTo"@,
        SpecToken::In => "In"@,
        SpecToken::While => "While"@,
        SpecToken::LessThan => "LessThan"@,
        SpecToken::GreaterThan => "GreaterThan"@,
        SpecToken::GreaterThanEquals => "GreaterThanEquals"@,
        SpecToken::LessThanEquals => "LessThanEquals"@,
        SpecToken::Equals => "Equals"@,
        SpecToken::NotEquals => "NotEquals"@,
        SpecToken::As => "As"@,
        SpecToken::Alias => "Alias"@,
        SpecToken::Dot => "Dot"@,
        SpecToken::Comma => "Comma"@,
        SpecToken::Colon => "Colon"@,
        SpecToken::Semicolon => "Semicolon"@,
    }
}

impl Token {
    /// The text of this token as a derived `Debug` writes it (see `token_debug_text`).
    pub fn debug_text(&self) -> (r: String)
        ensures
            r@ == token_debug_text(self@),
    {
        proof {
            reveal_strlit("Ident(");
            reveal_strlit("Float(FloatLiteral { whole: ");
            reveal_strlit(", fraction: ");
            reveal_strlit(" })");
            reveal_strlit("SignedInt(");
            reveal_strlit("UnsignedInt(");
            reveal_strlit("CharLiteral(");
            reveal_strlit("String(");
            reveal_strlit(")");
            reveal_strlit("True");
            reveal_strlit("False");
            reveal_strlit("Nullptr");
            reveal_strlit("Any");
            reveal_strlit("U16");
            reveal_strlit("I16");
            reveal_strlit("F16");
            reveal_strlit("Bool");
            reveal_strlit("Char");
            reveal_strlit("LParen");
            reveal_strlit("RParen");
            reveal_strlit("LBracket");
            reveal_strlit("RBracket");
            reveal_strlit("LBrace");
            reveal_strlit("RBrace");
            reveal_strlit("LShift");
            reveal_strlit("RShift");
            reveal_strlit("And");
            reveal_strlit("Or");
            reveal_strlit("Plus");
            reveal_strlit("Minus");
            reveal_strlit("Asterisk");
            reveal_strlit("Slash");
            reveal_strlit("Pipe");
            reveal_strlit("Loop");
            reveal_strlit("Break");
            reveal_strlit("Continue");
            reveal_strlit("Asm");
            reveal_strlit("Fn");
            reveal_strlit("Struct");
            reveal_strlit("Iter");
            reveal_strlit("Circumflex");
            reveal_strlit("Bang");
            reveal_strlit("Ampersand");
            reveal_strlit("Scope");
            reveal_strlit("Assign");
            reveal_strlit("Arrow");
            reveal_strlit("Let");
            reveal_strlit("Const");
            reveal_strlit("Mut");
            reveal_strlit("If");
            reveal_strlit("Else");
            reveal_strlit("For");
            reveal_strlit("To");
            reveal_strlit("DownTo");
            reveal_strlit("In");
            reveal_strlit("While");
            reveal_strlit("LessThan");
            reveal_strlit("GreaterThan");
            reveal_strlit("GreaterThanEquals");
            reveal_strlit("LessThanEquals");
            reveal_strlit("Equals");
            reveal_strlit("NotEquals");
            reveal_strlit("As");
            reveal_strlit("Alias");
            reveal_strlit("Dot");
            reveal_strlit("Comma");
            reveal_strlit("Colon");
            reveal_strlit("Semicolon");
        }
        match self {
            Token::Ident(s) => wrapped("Ident(", debug_str(s.as_str()).as_str(), ")"),
            Token::Float(f) => {
                let mut r = String::from_str("Float(FloatLiteral { whole: ");
                r.append(decimal(f.whole as usize).as_str());
                r.append(", fraction: ");
                r.append(debug_str(f.fraction.as_str()).as_str());
                r.append(" })");
                r
            },
            Token::SignedInt(v) => wrapped("SignedInt(", signed_decimal(*v as isize).as_str(), ")"),
            Token::UnsignedInt(v) => wrapped("UnsignedInt(", decimal(*v as usize).as_str(), ")"),
            Token::CharLiteral(c) => wrapped("CharLiteral(", debug_char(*c).as_str(), ")"),
            Token::String(s) => wrapped("String(", debug_str(s.as_str()).as_str(), ")"),
            Token::True => String::from_str("True"),
            Token::False => String::from_str("False"),
            Token::Nullptr => String::from_str("Nullptr"),
            Token::Any => String::from_str("Any"),
            Token::U16 => String::from_str("U16"),
            Token::I16 => String::from_str("I16"),
            Token::F16 => String::from_str("F16"),
            Token::Bool => String::from_str("Bool"),
            Token::Char => String::from_str("Char"),
            Token::LParen => String::from_str("LParen"),
            Token::RParen => String::from_str("RParen"),
            Token::LBracket => String::from_str("LBracket"),
            Token::RBracket => String::from_str("RBracket"),
            Token::LBrace => String::from_str("LBrace"),
            Token::RBrace => String::from_str("RBrace"),
            Token::LShift => String::from_str("LShift"),
            Token::RShift => String::from_str("RShift"),
            Token::And => String::from_str("And"),
            Token::Or => String::from_str("Or"),
            Token::Plus => String::from_str("Plus"),
            Token::Minus => String::from_str("Minus"),
            Token::Asterisk => String::from_str("Asterisk"),
            Token::Slash => String::from_str("Slash"),
            Token::Pipe => String::from_str("Pipe"),
            Token::Loop => String::from_str("Loop"),
            Token::Break => String::from_str("Break"),
            Token::Continue => String::from_str("Continue"),
            Token::Asm => String::from_str("Asm"),
            Token::Fn => String::from_str("Fn"),
            Token::Struct => String::from_str("Struct"),
            Token::Iter => String::from_str("Iter"),
            Token::Circumflex => String::from_str("Circumflex"),
            Token::Bang => String::from_str("Bang"),
            Token::Ampersand => String::from_str("Ampersand"),
            Token::Scope => String::from_str("Scope"),
            Token::Assign => String::from_str("Assign"),
            Token::Arrow => String::from_str("Arrow"),
            Token::Let => String::from_str("Let"),
            Token::Const => String::from_str("Const"),
            Token::Mut => String::from_str("Mut"),
            Token::If => String::from_str("If"),
            Token::Else => String::from_str("Else"),
            Token::For => String::from_str("For"),
            Token::To => String::from_str("To"),
            Token::DownTo => String::from_str("DownTo"),
            Token::In => String::from_str("In"),
            Token::While => String::from_str("While"),
            Token::LessThan => String::from_str("LessThan"),
            Token::GreaterThan => String::from_str("GreaterThan"),
            Token::GreaterThanEquals => String::from_str("GreaterThanEquals"),
            Token::LessThanEquals => String::from_str("LessThanEquals"),
            Token::Equals => String::from_str("Equals"),
            Token::NotEquals => String::from_str("NotEquals"),
            Token::As => String::from_str("As"),
            Token::Alias => String::from_str("Alias"),
            Token::Dot => String::from_str("Dot"),
            Token::Comma => String::from_str("Comma"),
            Token::Colon => String::from_str("Colon"),
            Token::Semicolon => String::from_str("Semicolon"),
        }
    }
}

/// `before`, `middle` and `after`, one after the other.
fn wrapped(before: &str, middle: &str, after: &str) -> (r: String)
    ensures
        r@ == before@ + middle@ + after@,
{
    let mut r = String::from_str(before);
    r.append(middle);
    r.append(after);
    r
}

} // verus!
