//! The grammar of the language, as spec functions over the sequence of items
//! that the lexer returns.
//!
//! Each function reads the items from an index on and says what the parser
//! returns there: a value and the index of the first item it did not consume,
//! an error and the index where the parser stands after it, or that the parser
//! reaches a construct it has no rule for and does not return.
//!
//! Indices never move backwards; the recursive definitions test this where it
//! is needed to make their termination evident.
use crate::error::SpecCompilerError;
use crate::lexer::error::SpecSyntaxError;
use crate::lexer::token::SpecToken;
use crate::lexer::{lex_step, LexStep};
use crate::parser::ast::{BinaryOp, SpecDefinition, SpecExpr, SpecNode, UnaryOp};
use crate::parser::cerium_type::SpecType;
use crate::parser::ast::RangeAnnotation;
use std::ops::Range;
use vstd::prelude::*;

verus! {

/// One item that the lexer returns: a token with its range, or an error.
pub type LexItem = Result<(Range<usize>, SpecToken), SpecSyntaxError>;

/// The items the lexer returns, in order, and how they end.
pub struct TokenStream {
    pub items: Seq<LexItem>,
}

/// The items the lexer returns when it starts at position `p` of `cs`.
pub open spec fn token_stream(cs: Seq<char>, p: int) -> TokenStream
    decreases cs.len() - p,
{
    match lex_step(cs, p, false) {
        LexStep::End => TokenStream { items: Seq::empty() },
        LexStep::Item(item, q) => if p < q <= cs.len() {
            let rest = token_stream(cs, q);
            TokenStream { items: seq![item] + rest.items }
        } else {
            TokenStream { items: Seq::empty() }
        },
    }
}

/// The stream from index `i` on.
pub open spec fn suffix(s: TokenStream, i: int) -> TokenStream {
    TokenStream { items: s.items.subrange(i, s.items.len() as int) }
}

/// What the parser sees at index `i`.
pub enum Look {
    Item(LexItem),
    End,
}

/// What the parser sees at index `i` of the stream.
pub open spec fn look(s: TokenStream, i: int) -> Look {
    if 0 <= i < s.items.len() {
        Look::Item(s.items[i])
    } else {
        Look::End
    }
}

/// Whether the item at `i` is the token `t`.
pub open spec fn is_token(s: TokenStream, i: int, t: SpecToken) -> bool {
    look(s, i) matches Look::Item(Ok((_, u))) && u == t
}

/// What the parser returns: a value and the next index, an error and the
/// index after it, or nothing because it met a construct it has no rule for.
pub enum Parsed<T> {
    Value(T, int),
    Error(SpecCompilerError, int),
    Unsupported,
}

impl<T> Parsed<T> {
    pub open spec fn is_unsupported(self) -> bool {
        self is Unsupported
    }
}

/// An error or `Unsupported` carried over to another result type.
pub open spec fn forward<T, U>(p: Parsed<T>) -> Parsed<U> {
    match p {
        Parsed::Error(e, j) => Parsed::Error(e, j),
        _ => Parsed::Unsupported,
    }
}

/// The error for consuming item `l` at index `i` where it is not allowed.
pub open spec fn reject<T>(l: Look, i: int) -> Parsed<T> {
    match l {
        Look::Item(Ok((r, t))) => Parsed::Error(SpecCompilerError::UnexpectedTokenError(r, t), i + 1),
        Look::Item(Err(e)) => Parsed::Error(SpecCompilerError::SyntaxError(e), i + 1),
        Look::End => Parsed::Error(SpecCompilerError::MissingTokenError, i),
    }
}

/// The error for item `l` at index `i` where it is not allowed, without consuming it.
pub open spec fn reject_unread<T>(l: Look, i: int) -> Parsed<T> {
    match l {
        Look::Item(Ok((r, t))) => Parsed::Error(SpecCompilerError::UnexpectedTokenError(r, t), i),
        Look::Item(Err(e)) => Parsed::Error(SpecCompilerError::SyntaxError(e), i),
        Look::End => Parsed::Error(SpecCompilerError::MissingTokenError, i),
    }
}

/// Consumes the token `t`: its range.
pub open spec fn expect(s: TokenStream, i: int, t: SpecToken) -> Parsed<Range<usize>> {
    if is_token(s, i, t) {
        Parsed::Value(s.items[i]->Ok_0.0, i + 1)
    } else {
        reject(look(s, i), i)
    }
}

/// Consumes an identifier: a one-part name.
pub open spec fn expect_name(s: TokenStream, i: int) -> Parsed<RangeAnnotation<Seq<Seq<char>>>> {
    match look(s, i) {
        Look::Item(Ok((r, SpecToken::Ident(n)))) => Parsed::Value(
            RangeAnnotation { range: r, inner: seq![n] },
            i + 1,
        ),
        l => reject(l, i),
    }
}

/// The range from the start of `a` to the end of `b`.
pub open spec fn span(a: Range<usize>, b: Range<usize>) -> Range<usize> {
    Range { start: a.start, end: b.end }
}

/// An annotated expression.
pub open spec fn node(range: Range<usize>, e: SpecExpr) -> SpecNode {
    RangeAnnotation { range, inner: e }
}

// ---------------------------------------------------------------------------
// Names and types.
// ---------------------------------------------------------------------------

/// `name (:: name)*` where the first name is already read.
pub open spec fn qualifier_rest(
    s: TokenStream,
    i: int,
    names: Seq<Seq<char>>,
    start: usize,
    end: usize,
) -> Parsed<RangeAnnotation<Seq<Seq<char>>>>
    decreases s.items.len() - i,
{
    if is_token(s, i, SpecToken::Scope) {
        match look(s, i + 1) {
            Look::Item(Ok((r, SpecToken::Ident(n)))) => qualifier_rest(
                s,
                i + 2,
                names.push(n),
                start,
                r.end,
            ),
            l => reject(l, i + 1),
        }
    } else {
        Parsed::Value(RangeAnnotation { range: Range { start, end }, inner: names }, i)
    }
}

/// A possibly scoped name `a::b::c`.
pub open spec fn qualifier(s: TokenStream, i: int) -> Parsed<RangeAnnotation<Seq<Seq<char>>>> {
    match look(s, i) {
        Look::Item(Ok((r, SpecToken::Ident(n)))) => qualifier_rest(s, i + 1, seq![n], r.start, r.end),
        l => reject(l, i),
    }
}

/// A type: `i16`, `u16`, `f16`, `bool`, `any`, a struct name, `&type`, `&&type`,
/// or `fn(types) -> type`.
pub open spec fn type_expr(s: TokenStream, i: int) -> Parsed<RangeAnnotation<SpecType>>
    decreases s.items.len() - i, 0nat,
{
    match look(s, i) {
        Look::Item(Ok((r, t))) => match t {
            SpecToken::I16 => Parsed::Value(RangeAnnotation { range: r, inner: SpecType::I16 }, i + 1),
            SpecToken::U16 => Parsed::Value(RangeAnnotation { range: r, inner: SpecType::U16 }, i + 1),
            SpecToken::F16 => Parsed::Value(RangeAnnotation { range: r, inner: SpecType::F16 }, i + 1),
            SpecToken::Bool => Parsed::Value(RangeAnnotation { range: r, inner: SpecType::Bool }, i + 1),
            SpecToken::Any => Parsed::Value(RangeAnnotation { range: r, inner: SpecType::Any }, i + 1),
            SpecToken::Ident(n) => Parsed::Value(
                RangeAnnotation { range: r, inner: SpecType::Struct(n) },
                i + 1,
            ),
            SpecToken::Ampersand => match type_expr(s, i + 1) {
                Parsed::Value(inner, j) => Parsed::Value(
                    RangeAnnotation {
                        range: span(r, inner.range),
                        inner: SpecType::Pointer(Box::new(inner.inner)),
                    },
                    j,
                ),
                other => forward(other),
            },
            SpecToken::And => match type_expr(s, i + 1) {
                Parsed::Value(inner, j) => Parsed::Value(
                    RangeAnnotation {
                        range: span(r, inner.range),
                        inner: SpecType::Pointer(Box::new(SpecType::Pointer(Box::new(inner.inner)))),
                    },
                    j,
                ),
                other => forward(other),
            },
            SpecToken::Fn => match expect(s, i + 1, SpecToken::LParen) {
                Parsed::Value(_, j) => match type_list(s, j, Seq::empty()) {
                    Parsed::Value(params, k) => match expect(s, k, SpecToken::RParen) {
                        Parsed::Value(close, k2) => if is_token(s, k2, SpecToken::Arrow) {
                            if i <= k2 <= s.items.len() {
                                match type_expr(s, k2 + 1) {
                                    Parsed::Value(ret, k3) => Parsed::Value(
                                        RangeAnnotation {
                                            range: span(r, s.items[k2]->Ok_0.0),
                                            inner: SpecType::Function(
                                                params,
                                                Some(Box::new(ret.inner)),
                                            ),
                                        },
                                        k3,
                                    ),
                                    other => forward(other),
                                }
                            } else {
                                Parsed::Unsupported
                            }
                        } else {
                            Parsed::Value(
                                    RangeAnnotation {
                                        range: span(r, close),
                                        inner: SpecType::Function(params, None),
                                    },
                                    k2,
                                )
                        },
                        other => forward(other),
                    },
                    other => forward(other),
                },
                other => forward(other),
            },
            _ => Parsed::Error(SpecCompilerError::UnexpectedTokenError(r, t), i + 1),
        },
        l => reject(l, i),
    }
}

/// The parameter types of a function type, up to the closing parenthesis.
pub open spec fn type_list(s: TokenStream, i: int, acc: Seq<SpecType>) -> Parsed<Seq<SpecType>>
    decreases s.items.len() - i, 1nat,
{
    if is_token(s, i, SpecToken::RParen) {
        Parsed::Value(acc, i)
    } else {
        match type_expr(s, i) {
            Parsed::Value(t, j) => if is_token(s, j, SpecToken::Comma) {
                if i <= j <= s.items.len() {
                    type_list(s, j + 1, acc.push(t.inner))
                } else {
                    Parsed::Unsupported
                }
            } else {
                Parsed::Value(acc.push(t.inner), j)
            },
            other => forward(other),
        }
    }
}

// ---------------------------------------------------------------------------
// Expressions.
// ---------------------------------------------------------------------------

/// The levels of binary operators, from the loosest to the tightest binding.
#[derive(Clone, Copy)]
pub enum Precedence {
    /// `&&`, `||`
    Logical,
    /// `<`, `<=`, `>`, `>=`, `==`, `!=`
    Compare,
    /// `&`, `^`, `|`, `<<`, `>>`
    Bitwise,
    /// `+`, `-`
    Dash,
    /// `*`, `/`
    Point,
}

/// The level that binds one step tighter, if any.
pub open spec fn tighter(l: Precedence) -> Option<Precedence> {
    match l {
        Precedence::Logical => Some(Precedence::Compare),
        Precedence::Compare => Some(Precedence::Bitwise),
        Precedence::Bitwise => Some(Precedence::Dash),
        Precedence::Dash => Some(Precedence::Point),
        Precedence::Point => None,
    }
}

/// A rank that orders the levels: looser levels rank higher.
pub open spec fn level_rank(l: Precedence) -> nat {
    match l {
        Precedence::Logical => 28,
        Precedence::Compare => 26,
        Precedence::Bitwise => 24,
        Precedence::Dash => 22,
        Precedence::Point => 20,
    }
}

/// The operator that token `t` stands for at level `l`, if any.
pub open spec fn operator_of(l: Precedence, t: SpecToken) -> Option<BinaryOp> {
    match l {
        Precedence::Logical => match t {
            SpecToken::And => Some(BinaryOp::LogicalAnd),
            SpecToken::Or => Some(BinaryOp::LogicalOr),
            _ => None,
        },
        Precedence::Compare => match t {
            SpecToken::LessThan => Some(BinaryOp::LessThan),
            SpecToken::LessThanEquals => Some(BinaryOp::LessThanEquals),
            SpecToken::GreaterThan => Some(BinaryOp::GreaterThan),
            SpecToken::GreaterThanEquals => Some(BinaryOp::GreaterThanEquals),
            SpecToken::Equals => Some(BinaryOp::Equals),
            SpecToken::NotEquals => Some(BinaryOp::NotEquals),
            _ => None,
        },
        Precedence::Bitwise => match t {
            SpecToken::Ampersand => Some(BinaryOp::BitwiseOr),
            SpecToken::Circumflex => Some(BinaryOp::BitwiseXor),
            SpecToken::Pipe => Some(BinaryOp::BitwiseAnd),
            SpecToken::LShift => Some(BinaryOp::LeftShift),
            SpecToken::RShift => Some(BinaryOp::RightShift),
            _ => None,
        },
        Precedence::Dash => match t {
            SpecToken::Plus => Some(BinaryOp::Addition),
            SpecToken::Minus => Some(BinaryOp::Subtraction),
            _ => None,
        },
        Precedence::Point => match t {
            SpecToken::Asterisk => Some(BinaryOp::Multiplication),
            SpecToken::Slash => Some(BinaryOp::Division),
            _ => None,
        },
    }
}

/// The prefix operator that token `t` stands for, if any.
pub open spec fn prefix_operator(t: SpecToken) -> Option<UnaryOp> {
    match t {
        SpecToken::Ampersand => Some(UnaryOp::Borrow),
        SpecToken::Bang => Some(UnaryOp::Negation),
        SpecToken::Asterisk => Some(UnaryOp::Deref),
        SpecToken::Circumflex => Some(UnaryOp::Iter),
        SpecToken::Minus => Some(UnaryOp::Inversion),
        _ => None,
    }
}

/// An expression: an assignment `target = value`, or an operation.
pub open spec fn expression(s: TokenStream, i: int) -> Parsed<SpecNode>
    decreases s.items.len() - i, 30nat,
{
    match binary(Precedence::Logical, s, i) {
        Parsed::Value(target, j) => if is_token(s, j, SpecToken::Assign) {
            if i <= j <= s.items.len() {
                match expression(s, j + 1) {
                    Parsed::Value(value, k) => Parsed::Value(
                        node(
                            span(target.range, value.range),
                            SpecExpr::Binary(BinaryOp::Assignment, Box::new(target), Box::new(value)),
                        ),
                        k,
                    ),
                    other => other,
                }
            } else {
                Parsed::Unsupported
            }
        } else {
            Parsed::Value(target, j)
        },
        other => other,
    }
}

/// An operand of level `l`: an operation of the next tighter level, or a typed value.
pub open spec fn operand(l: Precedence, s: TokenStream, i: int) -> Parsed<SpecNode>
    decreases s.items.len() - i, (level_rank(l) - 1) as nat,
{
    match tighter(l) {
        Some(m) => binary(m, s, i),
        None => typing(s, i),
    }
}

/// Operands of level `l` joined, from left to right, by the operators of level `l`.
pub open spec fn binary(l: Precedence, s: TokenStream, i: int) -> Parsed<SpecNode>
    decreases s.items.len() - i, level_rank(l),
{
    match operand(l, s, i) {
        Parsed::Value(lhs, j) => if i <= j <= s.items.len() {
            binary_rest(l, s, j, lhs)
        } else {
            Parsed::Unsupported
        },
        other => other,
    }
}

/// The operators of level `l` and their right operands that follow `lhs`.
pub open spec fn binary_rest(l: Precedence, s: TokenStream, i: int, lhs: SpecNode) -> Parsed<
    SpecNode,
>
    decreases s.items.len() - i, (level_rank(l) - 1) as nat,
{
    match look(s, i) {
        Look::Item(Ok((r, t))) => match operator_of(l, t) {
            Some(op) => match operand(l, s, i + 1) {
                Parsed::Value(rhs, j) => if i < j <= s.items.len() {
                    binary_rest(
                        l,
                        s,
                        j,
                        node(span(lhs.range, rhs.range), SpecExpr::Binary(op, Box::new(lhs), Box::new(rhs))),
                    )
                } else {
                    Parsed::Unsupported
                },
                other => other,
            },
            None => Parsed::Value(lhs, i),
        },
        _ => Parsed::Value(lhs, i),
    }
}

/// A chain of operations of one level begins where its first operand begins: when
/// `binary_rest` builds a value from `lhs`, the value's range starts at `lhs`'s start,
/// and reading it never moves back in the token stream.
pub proof fn law_binary_chain_start(l: Precedence, s: TokenStream, i: int, lhs: SpecNode)
    ensures
        binary_rest(l, s, i, lhs) matches Parsed::Value(n, j) ==> n.range.start == lhs.range.start && i <= j,
    decreases s.items.len() - i,
{
    if let Look::Item(Ok((r, t))) = look(s, i) {
        if let Some(op) = operator_of(l, t) {
            if let Parsed::Value(rhs, j) = operand(l, s, i + 1) {
                if i < j <= s.items.len() {
                    law_binary_chain_start(
                        l,
                        s,
                        j,
                        node(span(lhs.range, rhs.range), SpecExpr::Binary(op, Box::new(lhs), Box::new(rhs))),
                    );
                }
            }
        }
    }
}

/// A prefixed value followed by `alias type` conversions.
pub open spec fn typing(s: TokenStream, i: int) -> Parsed<SpecNode>
    decreases s.items.len() - i, 18nat,
{
    match prefixed(s, i) {
        Parsed::Value(v, j) => if i <= j <= s.items.len() {
            typing_rest(s, j, v)
        } else {
            Parsed::Unsupported
        },
        other => other,
    }
}

/// The `alias type` conversions that follow `value`; `as` has no rule.
pub open spec fn typing_rest(s: TokenStream, i: int, value: SpecNode) -> Parsed<SpecNode>
    decreases s.items.len() - i, 17nat,
{
    match look(s, i) {
        Look::Item(Ok((r, SpecToken::Alias))) => match type_expr(s, i + 1) {
            Parsed::Value(t, j) => if i < j <= s.items.len() {
                typing_rest(
                    s,
                    j,
                    node(span(value.range, t.range), SpecExpr::TypeAlias(Box::new(value), t)),
                )
            } else {
                Parsed::Unsupported
            },
            other => forward(other),
        },
        Look::Item(Ok((r, SpecToken::As))) => Parsed::Unsupported,
        _ => Parsed::Value(value, i),
    }
}

/// A value preceded by prefix operators `&`, `!`, `*`, `^`, `-`.
pub open spec fn prefixed(s: TokenStream, i: int) -> Parsed<SpecNode>
    decreases s.items.len() - i, 16nat,
{
    match look(s, i) {
        Look::Item(Ok((r, t))) => match prefix_operator(t) {
            Some(op) => match prefixed(s, i + 1) {
                Parsed::Value(inner, j) => Parsed::Value(
                    node(span(r, inner.range), SpecExpr::Unary(op, Box::new(inner))),
                    j,
                ),
                other => other,
            },
            None => value(s, i),
        },
        l => reject_unread(l, i),
    }
}

/// Whether token `t` is a constant: a number, `true`, `false` or `nullptr`.
pub open spec fn is_constant(t: SpecToken) -> bool {
    t is UnsignedInt || t is Float || t is True || t is False || t is Nullptr
}

/// The expression for a constant token.
pub open spec fn constant_expr(t: SpecToken) -> SpecExpr {
    match t {
        SpecToken::UnsignedInt(v) => SpecExpr::UnsignedInteger(v),
        SpecToken::Float(f) => SpecExpr::Float(f),
        SpecToken::True => SpecExpr::Boolean(true),
        SpecToken::False => SpecExpr::Boolean(false),
        _ => SpecExpr::Nullptr,
    }
}

/// A value without what may follow it: a scope, a parenthesized expression,
/// a `let`, `if`, `for`, `loop` or `while` expression, a constant or a variable.
pub open spec fn primary(s: TokenStream, i: int) -> Parsed<SpecNode>
    decreases s.items.len() - i, 13nat,
{
    match look(s, i) {
        Look::Item(Ok((r, t))) => match t {
            SpecToken::LBrace => scope(s, i),
            SpecToken::LParen => parens(s, i),
            SpecToken::Let => let_expr(s, i),
            SpecToken::If => if_expr(s, i),
            SpecToken::For => for_expr(s, i),
            SpecToken::Loop => loop_expr(s, i),
            SpecToken::While => while_expr(s, i),
            SpecToken::Ident(_) => match qualifier(s, i) {
                Parsed::Value(q, j) => Parsed::Value(node(q.range, SpecExpr::Variable(q.inner)), j),
                other => forward(other),
            },
            _ => if is_constant(t) {
                Parsed::Value(node(r, constant_expr(t)), i + 1)
            } else {
                Parsed::Error(SpecCompilerError::UnexpectedTokenError(r, t), i)
            },
        },
        l => reject_unread(l, i),
    }
}

/// A value followed by field accesses, indexing and calls.
pub open spec fn value(s: TokenStream, i: int) -> Parsed<SpecNode>
    decreases s.items.len() - i, 15nat,
{
    match primary(s, i) {
        Parsed::Value(v, j) => if i <= j <= s.items.len() {
            postfix(s, j, v)
        } else {
            Parsed::Unsupported
        },
        other => other,
    }
}

/// The field accesses `.name`, indexing `[expr]` and calls `(args)` that follow `v`.
pub open spec fn postfix(s: TokenStream, i: int, v: SpecNode) -> Parsed<SpecNode>
    decreases s.items.len() - i, 14nat,
{
    match look(s, i) {
        Look::Item(Ok((r, SpecToken::Dot))) => match look(s, i + 1) {
            Look::Item(Ok((fr, SpecToken::Ident(n)))) => postfix(
                s,
                i + 2,
                node(
                    span(v.range, fr),
                    SpecExpr::FieldAccess(Box::new(v), RangeAnnotation { range: fr, inner: seq![n] }),
                ),
            ),
            l => reject(l, i + 1),
        },
        Look::Item(Ok((r, SpecToken::LBracket))) => match expression(s, i + 1) {
            Parsed::Value(index, j) => match expect(s, j, SpecToken::RBracket) {
                Parsed::Value(close, k) => if i < k <= s.items.len() {
                    postfix(
                        s,
                        k,
                        node(span(v.range, close), SpecExpr::ArrayAccess(Box::new(v), Box::new(index))),
                    )
                } else {
                    Parsed::Unsupported
                },
                other => forward(other),
            },
            other => other,
        },
        Look::Item(Ok((r, SpecToken::LParen))) => match call_args(s, i + 1, Seq::empty()) {
            Parsed::Value(params, j) => match expect(s, j, SpecToken::RParen) {
                Parsed::Value(close, k) => if i < k <= s.items.len() {
                    postfix(s, k, node(span(v.range, close), SpecExpr::FunctionCall(Box::new(v), params)))
                } else {
                    Parsed::Unsupported
                },
                other => forward(other),
            },
            other => forward(other),
        },
        _ => Parsed::Value(v, i),
    }
}

/// The arguments of a call, separated by commas, up to the closing parenthesis.
pub open spec fn call_args(s: TokenStream, i: int, acc: Seq<SpecNode>) -> Parsed<Seq<SpecNode>>
    decreases s.items.len() - i, 31nat,
{
    if is_token(s, i, SpecToken::RParen) {
        Parsed::Value(acc, i)
    } else {
        match expression(s, i) {
            Parsed::Value(e, j) => if is_token(s, j, SpecToken::Comma) {
                if i <= j <= s.items.len() {
                    call_args(s, j + 1, acc.push(e))
                } else {
                    Parsed::Unsupported
                }
            } else {
                Parsed::Value(acc.push(e), j)
            },
            other => forward(other),
        }
    }
}

/// `{ expr; ...; value }`.
pub open spec fn scope(s: TokenStream, i: int) -> Parsed<SpecNode>
    decreases s.items.len() - i, 12nat,
{
    match expect(s, i, SpecToken::LBrace) {
        Parsed::Value(open, j) => match scope_items(s, j, Seq::empty()) {
            Parsed::Value((instructions, value), k) => match expect(s, k, SpecToken::RBrace) {
                Parsed::Value(close, k2) => Parsed::Value(
                    node(
                        span(open, close),
                        SpecExpr::Scope(
                            instructions,
                            match value {
                                Some(v) => Some(Box::new(v)),
                                None => None,
                            },
                        ),
                    ),
                    k2,
                ),
                other => forward(other),
            },
            other => forward(other),
        },
        other => forward(other),
    }
}

/// The expressions of a scope ended by `;`, and the expression that ends the
/// scope without `;`, if any.
pub open spec fn scope_items(s: TokenStream, i: int, acc: Seq<SpecNode>) -> Parsed<
    (Seq<SpecNode>, Option<SpecNode>),
>
    decreases s.items.len() - i, 31nat,
{
    if is_token(s, i, SpecToken::RBrace) {
        Parsed::Value((acc, None), i)
    } else {
        match expression(s, i) {
            Parsed::Value(e, j) => if is_token(s, j, SpecToken::Semicolon) {
                if i <= j <= s.items.len() {
                    scope_items(s, j + 1, acc.push(e))
                } else {
                    Parsed::Unsupported
                }
            } else {
                Parsed::Value((acc, Some(e)), j)
            },
            other => forward(other),
        }
    }
}

/// `( expr )`. When the expression is wrong, a closing parenthesis is still
/// required after it; if there is one, the expression's error is returned.
pub open spec fn parens(s: TokenStream, i: int) -> Parsed<SpecNode>
    decreases s.items.len() - i, 12nat,
{
    match expect(s, i, SpecToken::LParen) {
        Parsed::Value(_, j) => match expression(s, j) {
            Parsed::Value(e, k) => match expect(s, k, SpecToken::RParen) {
                Parsed::Value(_, k2) => Parsed::Value(e, k2),
                other => forward(other),
            },
            Parsed::Error(err, k) => match expect(s, k, SpecToken::RParen) {
                Parsed::Value(_, k2) => Parsed::Error(err, k2),
                other => forward(other),
            },
            Parsed::Unsupported => Parsed::Unsupported,
        },
        other => forward(other),
    }
}

/// `let name = value`, or `let name = value in body`.
pub open spec fn let_expr(s: TokenStream, i: int) -> Parsed<SpecNode>
    decreases s.items.len() - i, 12nat,
{
    match expect(s, i, SpecToken::Let) {
        Parsed::Value(start, j) => match expect_name(s, j) {
            Parsed::Value(name, j2) => match expect(s, j2, SpecToken::Assign) {
                Parsed::Value(_, j3) => match expression(s, j3) {
                    Parsed::Value(v, k) => if is_token(s, k, SpecToken::In) {
                        if i <= k <= s.items.len() {
                            match expression(s, k + 1) {
                                Parsed::Value(body, k2) => Parsed::Value(
                                    node(
                                        span(start, body.range),
                                        SpecExpr::LetIn(name, Box::new(v), Box::new(body)),
                                    ),
                                    k2,
                                ),
                                other => other,
                            }
                        } else {
                            Parsed::Unsupported
                        }
                    } else {
                        Parsed::Value(node(span(start, v.range), SpecExpr::Let(name, Box::new(v))), k)
                    },
                    other => other,
                },
                other => forward(other),
            },
            other => forward(other),
        },
        other => forward(other),
    }
}

/// `if condition { .. }`, optionally followed by `else { .. }`.
pub open spec fn if_expr(s: TokenStream, i: int) -> Parsed<SpecNode>
    decreases s.items.len() - i, 12nat,
{
    match expect(s, i, SpecToken::If) {
        Parsed::Value(start, j) => match expression(s, j) {
            Parsed::Value(c, k) => if i < k <= s.items.len() {
                match scope(s, k) {
                    Parsed::Value(then_branch, k2) => if is_token(s, k2, SpecToken::Else) {
                        if i <= k2 <= s.items.len() {
                            match scope(s, k2 + 1) {
                                Parsed::Value(else_branch, k3) => Parsed::Value(
                                    node(
                                        span(start, else_branch.range),
                                        SpecExpr::If(
                                            Box::new(c),
                                            Box::new(then_branch),
                                            Some(Box::new(else_branch)),
                                        ),
                                    ),
                                    k3,
                                ),
                                other => other,
                            }
                        } else {
                            Parsed::Unsupported
                        }
                    } else {
                        Parsed::Value(
                                node(
                                    span(start, then_branch.range),
                                    SpecExpr::If(Box::new(c), Box::new(then_branch), None),
                                ),
                                k2,
                            )
                    },
                    other => other,
                }
            } else {
                Parsed::Unsupported
            },
            other => other,
        },
        other => forward(other),
    }
}

/// `for name to limit { .. }`, `for name downto limit { .. }` or
/// `for name in iterator { .. }`.
pub open spec fn for_expr(s: TokenStream, i: int) -> Parsed<SpecNode>
    decreases s.items.len() - i, 12nat,
{
    match expect(s, i, SpecToken::For) {
        Parsed::Value(start, j) => match qualifier(s, j) {
            Parsed::Value(var, k) => match look(s, k) {
                Look::Item(Ok((r, t))) => if t == SpecToken::To || t == SpecToken::DownTo || t
                    == SpecToken::In {
                    if i <= k <= s.items.len() {
                        match expression(s, k + 1) {
                            Parsed::Value(e, k2) => if i < k2 <= s.items.len() {
                                match scope(s, k2) {
                                    Parsed::Value(body, k3) => Parsed::Value(
                                        node(
                                            span(start, body.range),
                                            if t == SpecToken::To {
                                                SpecExpr::ForTo(var, Box::new(e), Box::new(body))
                                            } else if t == SpecToken::DownTo {
                                                SpecExpr::ForDownTo(var, Box::new(e), Box::new(body))
                                            } else {
                                                SpecExpr::ForIn(var, Box::new(e), Box::new(body))
                                            },
                                        ),
                                        k3,
                                    ),
                                    other => other,
                                }
                            } else {
                                Parsed::Unsupported
                            },
                            other => other,
                        }
                    } else {
                        Parsed::Unsupported
                    }
                } else {
                    Parsed::Error(SpecCompilerError::UnexpectedTokenError(r, t), k + 1)
                },
                l => reject(l, k),
            },
            other => forward(other),
        },
        other => forward(other),
    }
}

/// `while condition { .. }`.
pub open spec fn while_expr(s: TokenStream, i: int) -> Parsed<SpecNode>
    decreases s.items.len() - i, 12nat,
{
    match expect(s, i, SpecToken::While) {
        Parsed::Value(start, j) => match expression(s, j) {
            Parsed::Value(c, k) => if i < k <= s.items.len() {
                match scope(s, k) {
                    Parsed::Value(body, k2) => Parsed::Value(
                        node(span(start, body.range), SpecExpr::While(Box::new(c), Box::new(body))),
                        k2,
                    ),
                    other => other,
                }
            } else {
                Parsed::Unsupported
            },
            other => other,
        },
        other => forward(other),
    }
}

/// `loop { .. }`.
pub open spec fn loop_expr(s: TokenStream, i: int) -> Parsed<SpecNode>
    decreases s.items.len() - i, 12nat,
{
    match expect(s, i, SpecToken::Loop) {
        Parsed::Value(start, j) => match scope(s, j) {
            Parsed::Value(body, k) => Parsed::Value(
                node(span(start, body.range), SpecExpr::Loop(Box::new(body))),
                k,
            ),
            other => other,
        },
        other => forward(other),
    }
}

// ---------------------------------------------------------------------------
// Definitions.
// ---------------------------------------------------------------------------

/// A typed name `name: type`.
pub type SpecField = (RangeAnnotation<Seq<Seq<char>>>, RangeAnnotation<SpecType>);

/// Typed names `name: type` separated by commas, up to the token `close`.
pub open spec fn field_list(s: TokenStream, i: int, acc: Seq<SpecField>, close: SpecToken) -> Parsed<
    Seq<SpecField>,
>
    decreases s.items.len() - i,
{
    if is_token(s, i, close) {
        Parsed::Value(acc, i)
    } else {
        match expect_name(s, i) {
            Parsed::Value(name, j) => match expect(s, j, SpecToken::Colon) {
                Parsed::Value(_, j2) => match type_expr(s, j2) {
                    Parsed::Value(t, k) => if is_token(s, k, SpecToken::Comma) {
                        if i <= k <= s.items.len() {
                            field_list(s, k + 1, acc.push((name, t)), close)
                        } else {
                            Parsed::Unsupported
                        }
                    } else {
                        Parsed::Value(acc.push((name, t)), k)
                    },
                    other => forward(other),
                },
                other => forward(other),
            },
            other => forward(other),
        }
    }
}

/// `fn name(parameters) -> type { .. }`; the return type is optional.
pub open spec fn function_def(s: TokenStream, i: int) -> Parsed<SpecDefinition> {
    match expect(s, i, SpecToken::Fn) {
        Parsed::Value(_, j) => match qualifier(s, j) {
            Parsed::Value(name, j2) => match expect(s, j2, SpecToken::LParen) {
                Parsed::Value(_, j3) => match field_list(s, j3, Seq::empty(), SpecToken::RParen) {
                    Parsed::Value(parameters, k) => match expect(s, k, SpecToken::RParen) {
                        Parsed::Value(_, k2) => {
                            let ret: Parsed<Option<RangeAnnotation<SpecType>>> = if is_token(
                                s,
                                k2,
                                SpecToken::Arrow,
                            ) {
                                match type_expr(s, k2 + 1) {
                                    Parsed::Value(t, k3) => Parsed::Value(Some(t), k3),
                                    other => forward(other),
                                }
                            } else {
                                Parsed::Value(None, k2)
                            };
                            match ret {
                                Parsed::Value(return_type, k3) => match scope(s, k3) {
                                    Parsed::Value(body, k4) => Parsed::Value(
                                        SpecDefinition::Function { name, parameters, return_type, body },
                                        k4,
                                    ),
                                    other => forward(other),
                                },
                                other => forward(other),
                            }
                        },
                        other => forward(other),
                    },
                    other => forward(other),
                },
                other => forward(other),
            },
            other => forward(other),
        },
        other => forward(other),
    }
}

/// `const name: type = value;`.
pub open spec fn const_def(s: TokenStream, i: int) -> Parsed<SpecDefinition> {
    match expect(s, i, SpecToken::Const) {
        Parsed::Value(_, j) => match qualifier(s, j) {
            Parsed::Value(name, j2) => match expect(s, j2, SpecToken::Colon) {
                Parsed::Value(_, j3) => match type_expr(s, j3) {
                    Parsed::Value(const_type, k) => match expect(s, k, SpecToken::Assign) {
                        Parsed::Value(_, k2) => match expression(s, k2) {
                            Parsed::Value(value, k3) => match expect(s, k3, SpecToken::Semicolon) {
                                Parsed::Value(_, k4) => Parsed::Value(
                                    SpecDefinition::Const { name, const_type, value },
                                    k4,
                                ),
                                other => forward(other),
                            },
                            other => forward(other),
                        },
                        other => forward(other),
                    },
                    other => forward(other),
                },
                other => forward(other),
            },
            other => forward(other),
        },
        other => forward(other),
    }
}

/// `struct name { attributes }`.
pub open spec fn struct_def(s: TokenStream, i: int) -> Parsed<SpecDefinition> {
    match expect(s, i, SpecToken::Struct) {
        Parsed::Value(_, j) => match qualifier(s, j) {
            Parsed::Value(name, j2) => match expect(s, j2, SpecToken::LBrace) {
                Parsed::Value(_, j3) => match field_list(s, j3, Seq::empty(), SpecToken::RBrace) {
                    Parsed::Value(attributes, k) => match expect(s, k, SpecToken::RBrace) {
                        Parsed::Value(_, k2) => Parsed::Value(
                            SpecDefinition::Struct { name, attributes },
                            k2,
                        ),
                        other => forward(other),
                    },
                    other => forward(other),
                },
                other => forward(other),
            },
            other => forward(other),
        },
        other => forward(other),
    }
}

/// One definition: a function, a struct or a constant.
pub open spec fn definition(s: TokenStream, i: int) -> Parsed<SpecDefinition> {
    match look(s, i) {
        Look::Item(Ok((r, SpecToken::Fn))) => function_def(s, i),
        Look::Item(Ok((r, SpecToken::Struct))) => struct_def(s, i),
        Look::Item(Ok((r, SpecToken::Const))) => const_def(s, i),
        Look::Item(Ok((r, t))) => Parsed::Error(SpecCompilerError::UnexpectedTokenError(r, t), i + 1),
        l => reject_unread(l, i),
    }
}

/// The definitions of a program, until the items run out.
pub open spec fn definitions(s: TokenStream, i: int, acc: Seq<SpecDefinition>) -> Parsed<
    Seq<SpecDefinition>,
>
    decreases s.items.len() - i,
{
    if look(s, i) is End {
        Parsed::Value(acc, i)
    } else {
        match definition(s, i) {
            Parsed::Value(def, j) => if i < j <= s.items.len() {
                definitions(s, j, acc.push(def))
            } else {
                Parsed::Unsupported
            },
            other => forward(other),
        }
    }
}

/// The definitions of a whole program.
pub open spec fn program(s: TokenStream) -> Parsed<Seq<SpecDefinition>> {
    definitions(s, 0, Seq::empty())
}

// ---------------------------------------------------------------------------
// Where the grammar has a rule.
// ---------------------------------------------------------------------------

/// No item of the stream is the token `as`, for which the parser has no rule.
pub open spec fn no_cast(s: TokenStream) -> bool {
    forall|k: int| 0 <= k < s.items.len() ==> !(#[trigger] s.items[k] matches Ok((_, SpecToken::As)))
}

/// `p`, read from index `i` of a stream of `n` items, has a rule: a value that ends
/// between `i` and `n`, or an error.
pub open spec fn settled<T>(p: Parsed<T>, i: int, n: int) -> bool {
    match p {
        Parsed::Value(_, j) => i <= j <= n,
        Parsed::Error(_, _) => true,
        Parsed::Unsupported => false,
    }
}

proof fn lemma_expect(s: TokenStream, i: int, t: SpecToken)
    requires
        0 <= i <= s.items.len(),
    ensures
        expect(s, i, t) matches Parsed::Value(_, j) ==> j == i + 1 && j <= s.items.len(),
        settled(expect(s, i, t), i, s.items.len() as int),
{
}

proof fn lemma_expect_name(s: TokenStream, i: int)
    requires
        0 <= i <= s.items.len(),
    ensures
        expect_name(s, i) matches Parsed::Value(_, j) ==> j == i + 1 && j <= s.items.len(),
        settled(expect_name(s, i), i, s.items.len() as int),
{
}

proof fn lemma_qualifier_rest(s: TokenStream, i: int, names: Seq<Seq<char>>, start: usize, end: usize)
    requires
        0 <= i <= s.items.len(),
    ensures
        settled(qualifier_rest(s, i, names, start, end), i, s.items.len() as int),
    decreases s.items.len() - i,
{
    if is_token(s, i, SpecToken::Scope) {
        if let Look::Item(Ok((r, SpecToken::Ident(n)))) = look(s, i + 1) {
            lemma_qualifier_rest(s, i + 2, names.push(n), start, r.end);
        }
    }
}

proof fn lemma_qualifier(s: TokenStream, i: int)
    requires
        0 <= i <= s.items.len(),
    ensures
        qualifier(s, i) matches Parsed::Value(_, j) ==> i < j <= s.items.len(),
        settled(qualifier(s, i), i, s.items.len() as int),
{
    if let Look::Item(Ok((r, SpecToken::Ident(n)))) = look(s, i) {
        lemma_qualifier_rest(s, i + 1, seq![n], r.start, r.end);
    }
}

proof fn lemma_type_expr(s: TokenStream, i: int)
    requires
        0 <= i <= s.items.len(),
    ensures
        type_expr(s, i) matches Parsed::Value(_, j) ==> i < j <= s.items.len(),
        settled(type_expr(s, i), i, s.items.len() as int),
    decreases s.items.len() - i, 0nat,
{
    if let Look::Item(Ok((r, t))) = look(s, i) {
        match t {
            SpecToken::Ampersand => lemma_type_expr(s, i + 1),
            SpecToken::And => lemma_type_expr(s, i + 1),
            SpecToken::Fn => {
                lemma_expect(s, i + 1, SpecToken::LParen);
                if let Parsed::Value(_, j) = expect(s, i + 1, SpecToken::LParen) {
                    lemma_type_list(s, j, Seq::empty());
                    if let Parsed::Value(_, k) = type_list(s, j, Seq::empty()) {
                        lemma_expect(s, k, SpecToken::RParen);
                        if let Parsed::Value(_, k2) = expect(s, k, SpecToken::RParen) {
                            if is_token(s, k2, SpecToken::Arrow) {
                                lemma_type_expr(s, k2 + 1);
                            }
                        }
                    }
                }
            },
            _ => {},
        }
    }
}

proof fn lemma_type_list(s: TokenStream, i: int, acc: Seq<SpecType>)
    requires
        0 <= i <= s.items.len(),
    ensures
        settled(type_list(s, i, acc), i, s.items.len() as int),
    decreases s.items.len() - i, 1nat,
{
    if !is_token(s, i, SpecToken::RParen) {
        lemma_type_expr(s, i);
        if let Parsed::Value(t, j) = type_expr(s, i) {
            if is_token(s, j, SpecToken::Comma) {
                lemma_type_list(s, j + 1, acc.push(t.inner));
            }
        }
    }
}

proof fn lemma_expression(s: TokenStream, i: int)
    requires
        0 <= i <= s.items.len(),
        no_cast(s),
    ensures
        settled(expression(s, i), i, s.items.len() as int),
    decreases s.items.len() - i, 30nat,
{
    lemma_binary(Precedence::Logical, s, i);
    if let Parsed::Value(target, j) = binary(Precedence::Logical, s, i) {
        if is_token(s, j, SpecToken::Assign) {
            lemma_expression(s, j + 1);
        }
    }
}

proof fn lemma_operand(l: Precedence, s: TokenStream, i: int)
    requires
        0 <= i <= s.items.len(),
        no_cast(s),
    ensures
        settled(operand(l, s, i), i, s.items.len() as int),
    decreases s.items.len() - i, (level_rank(l) - 1) as nat,
{
    match tighter(l) {
        Some(m) => lemma_binary(m, s, i),
        None => lemma_typing(s, i),
    }
}

proof fn lemma_binary(l: Precedence, s: TokenStream, i: int)
    requires
        0 <= i <= s.items.len(),
        no_cast(s),
    ensures
        settled(binary(l, s, i), i, s.items.len() as int),
    decreases s.items.len() - i, level_rank(l),
{
    lemma_operand(l, s, i);
    if let Parsed::Value(lhs, j) = operand(l, s, i) {
        lemma_binary_rest(l, s, j, lhs);
    }
}

proof fn lemma_binary_rest(l: Precedence, s: TokenStream, i: int, lhs: SpecNode)
    requires
        0 <= i <= s.items.len(),
        no_cast(s),
    ensures
        settled(binary_rest(l, s, i, lhs), i, s.items.len() as int),
    decreases s.items.len() - i, (level_rank(l) - 1) as nat,
{
    if let Look::Item(Ok((r, t))) = look(s, i) {
        if let Some(op) = operator_of(l, t) {
            lemma_operand(l, s, i + 1);
            if let Parsed::Value(rhs, j) = operand(l, s, i + 1) {
                lemma_binary_rest(
                    l,
                    s,
                    j,
                    node(span(lhs.range, rhs.range), SpecExpr::Binary(op, Box::new(lhs), Box::new(rhs))),
                );
            }
        }
    }
}

proof fn lemma_typing(s: TokenStream, i: int)
    requires
        0 <= i <= s.items.len(),
        no_cast(s),
    ensures
        settled(typing(s, i), i, s.items.len() as int),
    decreases s.items.len() - i, 18nat,
{
    lemma_prefixed(s, i);
    if let Parsed::Value(v, j) = prefixed(s, i) {
        lemma_typing_rest(s, j, v);
    }
}

proof fn lemma_typing_rest(s: TokenStream, i: int, value: SpecNode)
    requires
        0 <= i <= s.items.len(),
        no_cast(s),
    ensures
        settled(typing_rest(s, i, value), i, s.items.len() as int),
    decreases s.items.len() - i, 17nat,
{
    if let Look::Item(Ok((r, SpecToken::Alias))) = look(s, i) {
        lemma_type_expr(s, i + 1);
        if let Parsed::Value(t, j) = type_expr(s, i + 1) {
            lemma_typing_rest(s, j, node(span(value.range, t.range), SpecExpr::TypeAlias(Box::new(value), t)));
        }
    }
    if 0 <= i < s.items.len() {
        assert(!(s.items[i] matches Ok((_, SpecToken::As))));
    }
}

proof fn lemma_prefixed(s: TokenStream, i: int)
    requires
        0 <= i <= s.items.len(),
        no_cast(s),
    ensures
        settled(prefixed(s, i), i, s.items.len() as int),
    decreases s.items.len() - i, 16nat,
{
    if let Look::Item(Ok((r, t))) = look(s, i) {
        if let Some(op) = prefix_operator(t) {
            lemma_prefixed(s, i + 1);
        } else {
            lemma_value(s, i);
        }
    }
}

proof fn lemma_primary(s: TokenStream, i: int)
    requires
        0 <= i <= s.items.len(),
        no_cast(s),
    ensures
        settled(primary(s, i), i, s.items.len() as int),
    decreases s.items.len() - i, 13nat,
{
    if let Look::Item(Ok((r, t))) = look(s, i) {
        match t {
            SpecToken::LBrace => lemma_scope(s, i),
            SpecToken::LParen => lemma_parens(s, i),
            SpecToken::Let => lemma_let_expr(s, i),
            SpecToken::If => lemma_if_expr(s, i),
            SpecToken::For => lemma_for_expr(s, i),
            SpecToken::Loop => lemma_loop_expr(s, i),
            SpecToken::While => lemma_while_expr(s, i),
            SpecToken::Ident(_) => lemma_qualifier(s, i),
            _ => {},
        }
    }
}

proof fn lemma_value(s: TokenStream, i: int)
    requires
        0 <= i <= s.items.len(),
        no_cast(s),
    ensures
        settled(value(s, i), i, s.items.len() as int),
    decreases s.items.len() - i, 15nat,
{
    lemma_primary(s, i);
    if let Parsed::Value(v, j) = primary(s, i) {
        lemma_postfix(s, j, v);
    }
}

proof fn lemma_postfix(s: TokenStream, i: int, v: SpecNode)
    requires
        0 <= i <= s.items.len(),
        no_cast(s),
    ensures
        settled(postfix(s, i, v), i, s.items.len() as int),
    decreases s.items.len() - i, 14nat,
{
    match look(s, i) {
        Look::Item(Ok((r, SpecToken::Dot))) => {
            if let Look::Item(Ok((fr, SpecToken::Ident(n)))) = look(s, i + 1) {
                lemma_postfix(
                    s,
                    i + 2,
                    node(
                        span(v.range, fr),
                        SpecExpr::FieldAccess(Box::new(v), RangeAnnotation { range: fr, inner: seq![n] }),
                    ),
                );
            }
        },
        Look::Item(Ok((r, SpecToken::LBracket))) => {
            lemma_expression(s, i + 1);
            if let Parsed::Value(index, j) = expression(s, i + 1) {
                lemma_expect(s, j, SpecToken::RBracket);
                if let Parsed::Value(close, k) = expect(s, j, SpecToken::RBracket) {
                    lemma_postfix(
                        s,
                        k,
                        node(span(v.range, close), SpecExpr::ArrayAccess(Box::new(v), Box::new(index))),
                    );
                }
            }
        },
        Look::Item(Ok((r, SpecToken::LParen))) => {
            lemma_call_args(s, i + 1, Seq::empty());
            if let Parsed::Value(params, j) = call_args(s, i + 1, Seq::empty()) {
                lemma_expect(s, j, SpecToken::RParen);
                if let Parsed::Value(close, k) = expect(s, j, SpecToken::RParen) {
                    lemma_postfix(s, k, node(span(v.range, close), SpecExpr::FunctionCall(Box::new(v), params)));
                }
            }
        },
        _ => {},
    }
}

proof fn lemma_call_args(s: TokenStream, i: int, acc: Seq<SpecNode>)
    requires
        0 <= i <= s.items.len(),
        no_cast(s),
    ensures
        settled(call_args(s, i, acc), i, s.items.len() as int),
    decreases s.items.len() - i, 31nat,
{
    if !is_token(s, i, SpecToken::RParen) {
        lemma_expression(s, i);
        if let Parsed::Value(e, j) = expression(s, i) {
            if is_token(s, j, SpecToken::Comma) {
                lemma_call_args(s, j + 1, acc.push(e));
            }
        }
    }
}

proof fn lemma_scope(s: TokenStream, i: int)
    requires
        0 <= i <= s.items.len(),
        no_cast(s),
    ensures
        scope(s, i) matches Parsed::Value(_, j) ==> i < j <= s.items.len(),
        settled(scope(s, i), i, s.items.len() as int),
    decreases s.items.len() - i, 12nat,
{
    lemma_expect(s, i, SpecToken::LBrace);
    if let Parsed::Value(open, j) = expect(s, i, SpecToken::LBrace) {
        lemma_scope_items(s, j, Seq::empty());
        if let Parsed::Value(_, k) = scope_items(s, j, Seq::empty()) {
            lemma_expect(s, k, SpecToken::RBrace);
        }
    }
}

proof fn lemma_scope_items(s: TokenStream, i: int, acc: Seq<SpecNode>)
    requires
        0 <= i <= s.items.len(),
        no_cast(s),
    ensures
        settled(scope_items(s, i, acc), i, s.items.len() as int),
    decreases s.items.len() - i, 31nat,
{
    if !is_token(s, i, SpecToken::RBrace) {
        lemma_expression(s, i);
        if let Parsed::Value(e, j) = expression(s, i) {
            if is_token(s, j, SpecToken::Semicolon) {
                lemma_scope_items(s, j + 1, acc.push(e));
            }
        }
    }
}

proof fn lemma_parens(s: TokenStream, i: int)
    requires
        0 <= i <= s.items.len(),
        no_cast(s),
    ensures
        settled(parens(s, i), i, s.items.len() as int),
    decreases s.items.len() - i, 12nat,
{
    lemma_expect(s, i, SpecToken::LParen);
    if let Parsed::Value(_, j) = expect(s, i, SpecToken::LParen) {
        lemma_expression(s, j);
        match expression(s, j) {
            Parsed::Value(_, k) => lemma_expect(s, k, SpecToken::RParen),
            _ => {},
        }
    }
}

proof fn lemma_let_expr(s: TokenStream, i: int)
    requires
        0 <= i <= s.items.len(),
        no_cast(s),
    ensures
        settled(let_expr(s, i), i, s.items.len() as int),
    decreases s.items.len() - i, 12nat,
{
    lemma_expect(s, i, SpecToken::Let);
    if let Parsed::Value(_, j) = expect(s, i, SpecToken::Let) {
        lemma_expect_name(s, j);
        if let Parsed::Value(_, j2) = expect_name(s, j) {
            lemma_expect(s, j2, SpecToken::Assign);
            if let Parsed::Value(_, j3) = expect(s, j2, SpecToken::Assign) {
                lemma_expression(s, j3);
                if let Parsed::Value(_, k) = expression(s, j3) {
                    if is_token(s, k, SpecToken::In) {
                        lemma_expression(s, k + 1);
                    }
                }
            }
        }
    }
}

proof fn lemma_if_expr(s: TokenStream, i: int)
    requires
        0 <= i <= s.items.len(),
        no_cast(s),
    ensures
        settled(if_expr(s, i), i, s.items.len() as int),
    decreases s.items.len() - i, 12nat,
{
    lemma_expect(s, i, SpecToken::If);
    if let Parsed::Value(_, j) = expect(s, i, SpecToken::If) {
        lemma_expression(s, j);
        if let Parsed::Value(_, k) = expression(s, j) {
            lemma_scope(s, k);
            if let Parsed::Value(_, k2) = scope(s, k) {
                if is_token(s, k2, SpecToken::Else) {
                    lemma_scope(s, k2 + 1);
                }
            }
        }
    }
}

proof fn lemma_for_expr(s: TokenStream, i: int)
    requires
        0 <= i <= s.items.len(),
        no_cast(s),
    ensures
        settled(for_expr(s, i), i, s.items.len() as int),
    decreases s.items.len() - i, 12nat,
{
    lemma_expect(s, i, SpecToken::For);
    if let Parsed::Value(_, j) = expect(s, i, SpecToken::For) {
        lemma_qualifier(s, j);
        if let Parsed::Value(_, k) = qualifier(s, j) {
            if let Look::Item(Ok((r, t))) = look(s, k) {
                lemma_expression(s, k + 1);
                if let Parsed::Value(_, k2) = expression(s, k + 1) {
                    lemma_scope(s, k2);
                }
            }
        }
    }
}

proof fn lemma_while_expr(s: TokenStream, i: int)
    requires
        0 <= i <= s.items.len(),
        no_cast(s),
    ensures
        settled(while_expr(s, i), i, s.items.len() as int),
    decreases s.items.len() - i, 12nat,
{
    lemma_expect(s, i, SpecToken::While);
    if let Parsed::Value(_, j) = expect(s, i, SpecToken::While) {
        lemma_expression(s, j);
        if let Parsed::Value(_, k) = expression(s, j) {
            lemma_scope(s, k);
        }
    }
}

proof fn lemma_loop_expr(s: TokenStream, i: int)
    requires
        0 <= i <= s.items.len(),
        no_cast(s),
    ensures
        settled(loop_expr(s, i), i, s.items.len() as int),
    decreases s.items.len() - i, 12nat,
{
    lemma_expect(s, i, SpecToken::Loop);
    if let Parsed::Value(_, j) = expect(s, i, SpecToken::Loop) {
        lemma_scope(s, j);
    }
}

proof fn lemma_field_list(s: TokenStream, i: int, acc: Seq<SpecField>, close: SpecToken)
    requires
        0 <= i <= s.items.len(),
    ensures
        settled(field_list(s, i, acc, close), i, s.items.len() as int),
    decreases s.items.len() - i,
{
    if !is_token(s, i, close) {
        lemma_expect_name(s, i);
        if let Parsed::Value(name, j) = expect_name(s, i) {
            lemma_expect(s, j, SpecToken::Colon);
            if let Parsed::Value(_, j2) = expect(s, j, SpecToken::Colon) {
                lemma_type_expr(s, j2);
                if let Parsed::Value(t, k) = type_expr(s, j2) {
                    if is_token(s, k, SpecToken::Comma) {
                        lemma_field_list(s, k + 1, acc.push((name, t)), close);
                    }
                }
            }
        }
    }
}

proof fn lemma_function_def(s: TokenStream, i: int)
    requires
        0 <= i <= s.items.len(),
        no_cast(s),
    ensures
        function_def(s, i) matches Parsed::Value(_, j) ==> i < j <= s.items.len(),
        settled(function_def(s, i), i, s.items.len() as int),
{
    lemma_expect(s, i, SpecToken::Fn);
    if let Parsed::Value(_, j) = expect(s, i, SpecToken::Fn) {
        lemma_qualifier(s, j);
        if let Parsed::Value(_, j2) = qualifier(s, j) {
            lemma_expect(s, j2, SpecToken::LParen);
            if let Parsed::Value(_, j3) = expect(s, j2, SpecToken::LParen) {
                lemma_field_list(s, j3, Seq::empty(), SpecToken::RParen);
                if let Parsed::Value(_, k) = field_list(s, j3, Seq::empty(), SpecToken::RParen) {
                    lemma_expect(s, k, SpecToken::RParen);
                    if let Parsed::Value(_, k2) = expect(s, k, SpecToken::RParen) {
                        if is_token(s, k2, SpecToken::Arrow) {
                            lemma_type_expr(s, k2 + 1);
                            if let Parsed::Value(_, k3) = type_expr(s, k2 + 1) {
                                lemma_scope(s, k3);
                            }
                        } else {
                            lemma_scope(s, k2);
                        }
                    }
                }
            }
        }
    }
}

proof fn lemma_const_def(s: TokenStream, i: int)
    requires
        0 <= i <= s.items.len(),
        no_cast(s),
    ensures
        const_def(s, i) matches Parsed::Value(_, j) ==> i < j <= s.items.len(),
        settled(const_def(s, i), i, s.items.len() as int),
{
    lemma_expect(s, i, SpecToken::Const);
    if let Parsed::Value(_, j) = expect(s, i, SpecToken::Const) {
        lemma_qualifier(s, j);
        if let Parsed::Value(_, j2) = qualifier(s, j) {
            lemma_expect(s, j2, SpecToken::Colon);
            if let Parsed::Value(_, j3) = expect(s, j2, SpecToken::Colon) {
                lemma_type_expr(s, j3);
                if let Parsed::Value(_, k) = type_expr(s, j3) {
                    lemma_expect(s, k, SpecToken::Assign);
                    if let Parsed::Value(_, k2) = expect(s, k, SpecToken::Assign) {
                        lemma_expression(s, k2);
                        if let Parsed::Value(_, k3) = expression(s, k2) {
                            lemma_expect(s, k3, SpecToken::Semicolon);
                        }
                    }
                }
            }
        }
    }
}

proof fn lemma_struct_def(s: TokenStream, i: int)
    requires
        0 <= i <= s.items.len(),
    ensures
        struct_def(s, i) matches Parsed::Value(_, j) ==> i < j <= s.items.len(),
        settled(struct_def(s, i), i, s.items.len() as int),
{
    lemma_expect(s, i, SpecToken::Struct);
    if let Parsed::Value(_, j) = expect(s, i, SpecToken::Struct) {
        lemma_qualifier(s, j);
        if let Parsed::Value(_, j2) = qualifier(s, j) {
            lemma_expect(s, j2, SpecToken::LBrace);
            if let Parsed::Value(_, j3) = expect(s, j2, SpecToken::LBrace) {
                lemma_field_list(s, j3, Seq::empty(), SpecToken::RBrace);
                if let Parsed::Value(_, k) = field_list(s, j3, Seq::empty(), SpecToken::RBrace) {
                    lemma_expect(s, k, SpecToken::RBrace);
                }
            }
        }
    }
}

/// The parser has a rule for every stream without the token `as`: from any index, reading
/// the definitions of a program gives the definitions or an error.
pub proof fn law_definitions_settled(s: TokenStream, i: int, acc: Seq<SpecDefinition>)
    requires
        0 <= i <= s.items.len(),
        no_cast(s),
    ensures
        !definitions(s, i, acc).is_unsupported(),
        settled(definitions(s, i, acc), i, s.items.len() as int),
    decreases s.items.len() - i,
{
    if !(look(s, i) is End) {
        match look(s, i) {
            Look::Item(Ok((r, SpecToken::Fn))) => lemma_function_def(s, i),
            Look::Item(Ok((r, SpecToken::Struct))) => lemma_struct_def(s, i),
            Look::Item(Ok((r, SpecToken::Const))) => lemma_const_def(s, i),
            _ => {},
        }
        if let Parsed::Value(def, j) = definition(s, i) {
            law_definitions_settled(s, j, acc.push(def));
        }
    }
}

/// The parser has a rule for every stream without the token `as`: an expression read
/// from any index gives a value or an error.
pub proof fn law_expression_settled(s: TokenStream, i: int)
    requires
        0 <= i <= s.items.len(),
        no_cast(s),
    ensures
        !expression(s, i).is_unsupported(),
        settled(expression(s, i), i, s.items.len() as int),
{
    lemma_expression(s, i);
}

/// The parser has a rule for every type: a type read from any index gives a value or an
/// error.
pub proof fn law_type_settled(s: TokenStream, i: int)
    requires
        0 <= i <= s.items.len(),
    ensures
        !type_expr(s, i).is_unsupported(),
        settled(type_expr(s, i), i, s.items.len() as int),
{
    lemma_type_expr(s, i);
}

/// The parser has a rule for every name: a name read from any index gives a value or an
/// error.
pub proof fn law_qualifier_settled(s: TokenStream, i: int)
    requires
        0 <= i <= s.items.len(),
    ensures
        !qualifier(s, i).is_unsupported(),
        settled(qualifier(s, i), i, s.items.len() as int),
{
    lemma_qualifier(s, i);
}

/// The chain of level `l` that goes on from index `j`, after `lhs op rhs` was read.
pub open spec fn chain_after(l: Precedence, s: TokenStream, j: int, lhs: SpecNode, op: BinaryOp, rhs: SpecNode) -> Parsed<SpecNode> {
    binary_rest(l, s, j, node(span(lhs.range, rhs.range), SpecExpr::Binary(op, Box::new(lhs), Box::new(rhs))))
}

/// Each operator token stands for its own operation, with what was read before it on
/// the left and the operand after it on the right: at the comparison level `<` builds
/// `LessThan`, `<=` `LessThanEquals`, `>` `GreaterThan`, `>=` `GreaterThanEquals`, `==`
/// `Equals` and `!=` `NotEquals`; at the logical level `&&` builds `LogicalAnd` and `||`
/// `LogicalOr`; at the bitwise level `&` builds `BitwiseOr`, `^` `BitwiseXor`, `|`
/// `BitwiseAnd`, `<<` `LeftShift` and `>>` `RightShift`; `+` builds `Addition` and `-`
/// `Subtraction`; `*` builds `Multiplication` and `/` `Division`.
pub proof fn law_operator_tokens(l: Precedence, s: TokenStream, i: int, lhs: SpecNode, rhs: SpecNode, j: int)
    requires
        0 <= i < j <= s.items.len(),
        operand(l, s, i + 1) == Parsed::Value(rhs, j),
    ensures
        ({
            let here = binary_rest(l, s, i, lhs);
            &&& (l is Compare && s.items[i] matches Ok((_, SpecToken::LessThan))) ==> here == chain_after(l, s, j, lhs, BinaryOp::LessThan, rhs)
            &&& (l is Compare && s.items[i] matches Ok((_, SpecToken::LessThanEquals))) ==> here == chain_after(l, s, j, lhs, BinaryOp::LessThanEquals, rhs)
            &&& (l is Compare && s.items[i] matches Ok((_, SpecToken::GreaterThan))) ==> here == chain_after(l, s, j, lhs, BinaryOp::GreaterThan, rhs)
            &&& (l is Compare && s.items[i] matches Ok((_, SpecToken::GreaterThanEquals))) ==> here == chain_after(l, s, j, lhs, BinaryOp::GreaterThanEquals, rhs)
            &&& (l is Compare && s.items[i] matches Ok((_, SpecToken::Equals))) ==> here == chain_after(l, s, j, lhs, BinaryOp::Equals, rhs)
            &&& (l is Compare && s.items[i] matches Ok((_, SpecToken::NotEquals))) ==> here == chain_after(l, s, j, lhs, BinaryOp::NotEquals, rhs)
            &&& (l is Logical && s.items[i] matches Ok((_, SpecToken::And))) ==> here == chain_after(l, s, j, lhs, BinaryOp::LogicalAnd, rhs)
            &&& (l is Logical && s.items[i] matches Ok((_, SpecToken::Or))) ==> here == chain_after(l, s, j, lhs, BinaryOp::LogicalOr, rhs)
            &&& (l is Bitwise && s.items[i] matches Ok((_, SpecToken::Ampersand))) ==> here == chain_after(l, s, j, lhs, BinaryOp::BitwiseOr, rhs)
            &&& (l is Bitwise && s.items[i] matches Ok((_, SpecToken::Circumflex))) ==> here == chain_after(l, s, j, lhs, BinaryOp::BitwiseXor, rhs)
            &&& (l is Bitwise && s.items[i] matches Ok((_, SpecToken::Pipe))) ==> here == chain_after(l, s, j, lhs, BinaryOp::BitwiseAnd, rhs)
            &&& (l is Bitwise && s.items[i] matches Ok((_, SpecToken::LShift))) ==> here == chain_after(l, s, j, lhs, BinaryOp::LeftShift, rhs)
            &&& (l is Bitwise && s.items[i] matches Ok((_, SpecToken::RShift))) ==> here == chain_after(l, s, j, lhs, BinaryOp::RightShift, rhs)
            &&& (l is Dash && s.items[i] matches Ok((_, SpecToken::Plus))) ==> here == chain_after(l, s, j, lhs, BinaryOp::Addition, rhs)
            &&& (l is Dash && s.items[i] matches Ok((_, SpecToken::Minus))) ==> here == chain_after(l, s, j, lhs, BinaryOp::Subtraction, rhs)
            &&& (l is Point && s.items[i] matches Ok((_, SpecToken::Asterisk))) ==> here == chain_after(l, s, j, lhs, BinaryOp::Multiplication, rhs)
            &&& (l is Point && s.items[i] matches Ok((_, SpecToken::Slash))) ==> here == chain_after(l, s, j, lhs, BinaryOp::Division, rhs)
        }),
{
}

/// Each prefix token stands for its own operation on what follows it: `&` builds
/// `Borrow`, `!` `Negation`, `*` `Deref`, `^` `Iter` and `-` `Inversion`, spanning from
/// the token to the end of its operand.
pub proof fn law_prefix_tokens(s: TokenStream, i: int, inner: SpecNode, j: int)
    requires
        0 <= i < s.items.len(),
        s.items[i] is Ok,
        prefixed(s, i + 1) == Parsed::Value(inner, j),
    ensures
        ({
            let here = prefixed(s, i);
            let r = s.items[i]->Ok_0.0;
            let made = |op: UnaryOp| Parsed::Value(node(span(r, inner.range), SpecExpr::Unary(op, Box::new(inner))), j);
            &&& s.items[i] matches Ok((_, SpecToken::Ampersand)) ==> here == made(UnaryOp::Borrow)
            &&& s.items[i] matches Ok((_, SpecToken::Bang)) ==> here == made(UnaryOp::Negation)
            &&& s.items[i] matches Ok((_, SpecToken::Asterisk)) ==> here == made(UnaryOp::Deref)
            &&& s.items[i] matches Ok((_, SpecToken::Circumflex)) ==> here == made(UnaryOp::Iter)
            &&& s.items[i] matches Ok((_, SpecToken::Minus)) ==> here == made(UnaryOp::Inversion)
        }),
{
}

} // verus!
