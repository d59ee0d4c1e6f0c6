//! The parser: builds the syntax tree of a program from the lexer's tokens.
pub mod ast;
pub mod cerium_type;
pub mod grammar;

use crate::error::{CompilerError, SpecCompilerError};
use crate::lexer::error::SyntaxError;
use crate::lexer::token::{SpecToken, Token};
use crate::lexer::{item_view, lemma_lex_step_progress, lex_step, LexStep, Lexer};
use crate::lexer::token::is_symbol;
use crate::parser::ast::{
    fields_view, Const, Definition, Function, Program, SpecDefinition, Struct,
    make_binary, make_unary, node_view, nodes_view, ArrayAccess, BinaryOp, Expression, FieldAccess,
    ForDownTo, ForIn, ForTo, FunctionCall, If, Let, LetIn, Loop, Qualifier, RangeAnnotation, Scope,
    SpecExpr, SpecNode, TypeAlias, UnaryOp, While,
};
use crate::parser::cerium_type::{types_view, CeriumType, SpecType};
use crate::parser::grammar::{
    is_token, definition, definitions, field_list, function_def, const_def, struct_def, SpecField,
    binary, binary_rest, call_args, for_expr, if_expr, let_expr, loop_expr, parens, while_expr, constant_expr, expect, expect_name, expression, is_constant,
    level_rank, look, operand, operator_of, postfix, prefix_operator, prefixed, qualifier,
    qualifier_rest, scope, scope_items, suffix, tighter, token_stream, type_expr, type_list, typing,
    typing_rest, value, primary, no_cast, Look, Parsed, Precedence, TokenStream,
};
use std::ops::Range;
use vstd::prelude::*;

verus! {

/// A token that the grammar does not allow where it stands.
#[derive(Debug)]
pub struct UnexpectedTokenError {
    pub range: Range<usize>,
    pub found: Token,
}

/// Whether `x`, returned by the lexer, is what the parser sees as `l`.
pub open spec fn item_matches(x: Option<Result<(Range<usize>, Token), SyntaxError>>, l: Look) -> bool {
    match l {
        Look::Item(it) => x is Some && item_view(x->0) == it,
        Look::End => x is None,
    }
}

/// The parser's result as the grammar describes it, the parser then standing at index `j`.
pub open spec fn outcome<T: View>(r: Result<T, CompilerError>, j: int) -> Parsed<T::V> {
    match r {
        Ok(v) => Parsed::Value(v@, j),
        Err(e) => Parsed::Error(e@, j),
    }
}

/// A parsed range as the grammar describes it, the parser then standing at index `j`.
pub open spec fn range_outcome(r: Result<Range<usize>, CompilerError>, j: int) -> Parsed<Range<usize>> {
    match r {
        Ok(v) => Parsed::Value(v, j),
        Err(e) => Parsed::Error(e@, j),
    }
}

/// The stream of the lexer's items from `p` starts with the item of one step
/// from `p`, and goes on with the stream from where that step ends.
proof fn lemma_stream_step(cs: Seq<char>, p: int)
    requires
        0 <= p <= cs.len() <= usize::MAX,
    ensures
        match lex_step(cs, p, false) {
            LexStep::End => token_stream(cs, p).items.len() == 0,
            LexStep::Item(it, q) => {
                &&& token_stream(cs, p).items.len() > 0
                &&& token_stream(cs, p).items[0] == it
                &&& token_stream(cs, q) == suffix(token_stream(cs, p), 1)
                &&& p < q <= cs.len()
            },
        },
{
    lemma_lex_step_progress(cs, p, false);
    if let LexStep::Item(it, q) = lex_step(cs, p, false) {
        let s = token_stream(cs, p);
        let rest = token_stream(cs, q);
        assert(s.items == seq![it] + rest.items);
        assert(s.items.subrange(1, s.items.len() as int) =~= rest.items);
    }
}

proof fn lemma_suffix_suffix(s: TokenStream, i: int)
    requires
        0 <= i < s.items.len(),
    ensures
        suffix(suffix(s, i), 1) == suffix(s, i + 1),
        suffix(s, i).items.len() > 0,
        suffix(s, i).items[0] == s.items[i],
{
    assert(suffix(s, i).items.subrange(1, suffix(s, i).items.len() as int) =~= s.items.subrange(
        i + 1,
        s.items.len() as int,
    ));
}

proof fn lemma_nodes_view_push(v: Seq<RangeAnnotation<Expression>>, e: RangeAnnotation<Expression>)
    ensures
        nodes_view(v.push(e)) == nodes_view(v).push(e@),
{
    let w = v.push(e);
    assert(w.subrange(0, w.len() - 1) =~= v);
    assert(w[w.len() - 1] == e);
    assert(node_view(e) == e@);
}

/// The mathematical value of an annotated name.
pub open spec fn name_view_of(a: RangeAnnotation<Qualifier>) -> RangeAnnotation<Seq<Seq<char>>> {
    crate::parser::ast::name_view(a)
}

/// The mathematical value of an annotated type.
pub open spec fn type_view_of(a: RangeAnnotation<CeriumType>) -> RangeAnnotation<SpecType> {
    crate::parser::ast::type_annotation_view(a)
}

/// Makes a copy of an item returned by the lexer.
fn duplicate_item(x: &Option<Result<(Range<usize>, Token), SyntaxError>>) -> (r: Option<
    Result<(Range<usize>, Token), SyntaxError>,
>)
    ensures
        r == *x,
{
    match x {
        None => None,
        Some(Ok((range, t))) => Some(Ok((Range { start: range.start, end: range.end }, t.duplicate()))),
        Some(Err(e)) => Some(Err(e.duplicate())),
    }
}

/// The level that binds one step tighter than `l`, if any.
fn tighter_level(l: Precedence) -> (r: Option<Precedence>)
    ensures
        r == tighter(l),
{
    match l {
        Precedence::Logical => Some(Precedence::Compare),
        Precedence::Compare => Some(Precedence::Bitwise),
        Precedence::Bitwise => Some(Precedence::Dash),
        Precedence::Dash => Some(Precedence::Point),
        Precedence::Point => None,
    }
}

/// The binary operator that `t` stands for at level `l`, if any.
fn binary_operator(l: Precedence, t: &Token) -> (r: Option<BinaryOp>)
    ensures
        r == operator_of(l, t@),
{
    match l {
        Precedence::Logical => match t {
            Token::And => Some(BinaryOp::LogicalAnd),
            Token::Or => Some(BinaryOp::LogicalOr),
            _ => None,
        },
        Precedence::Compare => match t {
            Token::LessThan => Some(BinaryOp::LessThan),
            Token::LessThanEquals => Some(BinaryOp::LessThanEquals),
            Token::GreaterThan => Some(BinaryOp::GreaterThan),
            Token::GreaterThanEquals => Some(BinaryOp::GreaterThanEquals),
            Token::Equals => Some(BinaryOp::Equals),
            Token::NotEquals => Some(BinaryOp::NotEquals),
            _ => None,
        },
        Precedence::Bitwise => match t {
            Token::Ampersand => Some(BinaryOp::BitwiseOr),
            Token::Circumflex => Some(BinaryOp::BitwiseXor),
            Token::Pipe => Some(BinaryOp::BitwiseAnd),
            Token::LShift => Some(BinaryOp::LeftShift),
            Token::RShift => Some(BinaryOp::RightShift),
            _ => None,
        },
        Precedence::Dash => match t {
            Token::Plus => Some(BinaryOp::Addition),
            Token::Minus => Some(BinaryOp::Subtraction),
            _ => None,
        },
        Precedence::Point => match t {
            Token::Asterisk => Some(BinaryOp::Multiplication),
            Token::Slash => Some(BinaryOp::Division),
            _ => None,
        },
    }
}

/// The prefix operator that `t` stands for, if any.
fn prefix_op(t: &Token) -> (r: Option<UnaryOp>)
    ensures
        r == prefix_operator(t@),
{
    match t {
        Token::Ampersand => Some(UnaryOp::Borrow),
        Token::Bang => Some(UnaryOp::Negation),
        Token::Asterisk => Some(UnaryOp::Deref),
        Token::Circumflex => Some(UnaryOp::Iter),
        Token::Minus => Some(UnaryOp::Inversion),
        _ => None,
    }
}

/// The expression of a constant token.
fn constant(t: Token) -> (r: Expression)
    requires
        is_constant(t@),
    ensures
        r@ == constant_expr(t@),
{
    match t {
        Token::UnsignedInt(v) => Expression::UnsignedInteger(v),
        Token::Float(f) => Expression::Float(f),
        Token::True => Expression::Boolean(true),
        Token::False => Expression::Boolean(false),
        _ => Expression::Nullptr,
    }
}

/// A parser reading the tokens of a lexer, with room to look one token ahead.
pub struct Parser {
    lexer: Lexer,
    peeked: Option<Option<Result<(Range<usize>, Token), SyntaxError>>>,
    stream: Ghost<TokenStream>,
    index: Ghost<int>,
}

impl Parser {
    /// The items of the lexer from where the parser started.
    pub closed spec fn tokens(&self) -> TokenStream {
        self.stream@
    }

    /// The index of the next item to read.
    pub closed spec fn index(&self) -> int {
        self.index@
    }

    /// The number of items not yet read.
    pub open spec fn remaining(&self) -> int {
        self.tokens().items.len() - self.index()
    }

    /// The parser's state agrees with its lexer and its stream of items.
    pub closed spec fn wf(&self) -> bool {
        let s = self.stream@;
        let i = self.index@;
        let cs = self.lexer.source();
        let p = self.lexer.position();
        &&& 0 <= i <= s.items.len()
        &&& 0 <= p <= cs.len() <= usize::MAX
        &&& match self.peeked {
            None => token_stream(cs, p) == suffix(s, i),
            Some(x) => {
                &&& item_matches(x, look(s, i))
                &&& if i < s.items.len() {
                    token_stream(cs, p) == suffix(s, i + 1)
                } else {
                    token_stream(cs, p) == suffix(s, i)
                }
            },
        }
    }

    /// A parser of the tokens that `lexer` returns from where it stands.
    pub fn new(lexer: Lexer) -> (r: Parser)
        ensures
            r.wf(),
            r.tokens() == token_stream(lexer.source(), lexer.position()),
            r.index() == 0,
    {
        let _ = lexer.offset();
        let ghost s = token_stream(lexer.source(), lexer.position());
        assert(suffix(s, 0).items =~= s.items);
        Parser { lexer, peeked: None, stream: Ghost(s), index: Ghost(0) }
    }

    /// Looks at the next item without reading it.
    fn peek_item(&mut self) -> (r: Option<Result<(Range<usize>, Token), SyntaxError>>)
        requires
            old(self).wf(),
        ensures
            final(self).wf(),
            final(self).tokens() == old(self).tokens(),
            final(self).index() == old(self).index(),
            item_matches(r, look(old(self).tokens(), old(self).index())),
            final(self).peeked == Some(r),
            final(self).lexer.source() == old(self).lexer.source(),
    {
        if self.peeked.is_none() {
            let ghost cs = self.lexer.source();
            let ghost p = self.lexer.position();
            proof {
                lemma_stream_step(cs, p);
                if self.index() < self.tokens().items.len() {
                    lemma_suffix_suffix(self.tokens(), self.index());
                }
            }
            let x = self.lexer.next();
            self.peeked = Some(x);
        }
        match &self.peeked {
            Some(x) => duplicate_item(x),
            None => None,
        }
    }

    /// Reads the next item.
    fn next_item(&mut self) -> (r: Option<Result<(Range<usize>, Token), SyntaxError>>)
        requires
            old(self).wf(),
        ensures
            final(self).wf(),
            final(self).tokens() == old(self).tokens(),
            item_matches(r, look(old(self).tokens(), old(self).index())),
            final(self).index() == if old(self).index() < old(self).tokens().items.len() {
                old(self).index() + 1
            } else {
                old(self).index()
            },
    {
        let x = self.peek_item();
        let ghost i = self.index();
        let ghost s = self.tokens();
        self.peeked = None;
        if x.is_some() {
            self.index = Ghost(i + 1);
        }
        proof {
            if i >= s.items.len() {
                assert(suffix(s, i).items =~= Seq::<crate::parser::grammar::LexItem>::empty());
            }
        }
        x
    }

    /// Whether `new` reads the same items as `old`, and stands no earlier.
    pub open spec fn moved_on(old: &Parser, new: &Parser) -> bool {
        &&& new.wf()
        &&& new.tokens() == old.tokens()
        &&& old.index() <= new.index() <= new.tokens().items.len()
    }

    /// Reads the keyword, operator or delimiter `want`: its range.
    fn expect_token(&mut self, want: &Token) -> (r: Result<Range<usize>, CompilerError>)
        requires
            old(self).wf(),
            is_symbol(want@),
            !expect(old(self).tokens(), old(self).index(), want@).is_unsupported(),
        ensures
            Parser::moved_on(old(self), final(self)),
            expect(old(self).tokens(), old(self).index(), want@) == range_outcome(
                r,
                final(self).index(),
            ),
    {
        match self.next_item() {
            Some(Ok((range, t))) => {
                if t.is(want) {
                    Ok(range)
                } else {
                    Err(CompilerError::UnexpectedTokenError(UnexpectedTokenError { range, found: t }))
                }
            },
            Some(Err(e)) => Err(CompilerError::SyntaxError(e)),
            None => Err(CompilerError::MissingTokenError),
        }
    }

    /// Reads an identifier: a one-part name.
    fn expect_name(&mut self) -> (r: Result<RangeAnnotation<Qualifier>, CompilerError>)
        requires
            old(self).wf(),
            !expect_name(old(self).tokens(), old(self).index()).is_unsupported(),
        ensures
            Parser::moved_on(old(self), final(self)),
            expect_name(old(self).tokens(), old(self).index()) == outcome(r, final(self).index()),
    {
        match self.next_item() {
            Some(Ok((range, Token::Ident(ident)))) => Ok(
                RangeAnnotation::new(range, Qualifier::from_str(ident)),
            ),
            Some(Ok((range, t))) => Err(
                CompilerError::UnexpectedTokenError(UnexpectedTokenError { range, found: t }),
            ),
            Some(Err(e)) => Err(CompilerError::SyntaxError(e)),
            None => Err(CompilerError::MissingTokenError),
        }
    }

    /// Reads a possibly scoped name `a::b::c`.
    fn parse_qualifier(&mut self) -> (r: Result<RangeAnnotation<Qualifier>, CompilerError>)
        requires
            old(self).wf(),
            !qualifier(old(self).tokens(), old(self).index()).is_unsupported(),
        ensures
            Parser::moved_on(old(self), final(self)),
            qualifier(old(self).tokens(), old(self).index()) == outcome(r, final(self).index()),
    {
        let ghost s = self.tokens();
        let ghost i0 = self.index();
        let (start, mut end, mut result) = match self.next_item() {
            Some(Ok((range, Token::Ident(ident)))) => {
                let mut names: Vec<String> = Vec::new();
                names.push(ident);
                (range.start, range.end, names)
            },
            Some(Ok((range, t))) => {
                return Err(
                    CompilerError::UnexpectedTokenError(UnexpectedTokenError { range, found: t }),
                );
            },
            Some(Err(e)) => {
                return Err(CompilerError::SyntaxError(e));
            },
            None => {
                return Err(CompilerError::MissingTokenError);
            },
        };
        proof {
            assert(result@.map_values(|n: String| n@) =~= seq![result@[0]@]);
        }
        loop
            invariant
                Parser::moved_on(old(self), self),
                s == old(self).tokens(),
                i0 == old(self).index(),
                qualifier(s, i0) == qualifier_rest(
                    s,
                    self.index(),
                    result@.map_values(|n: String| n@),
                    start,
                    end,
                ),
                !qualifier(s, i0).is_unsupported(),
            decreases self.remaining(),
        {
            let item = self.peek_item();
            if let Some(Ok((_, Token::Scope))) = item {
                self.next_item();
                match self.next_item() {
                    Some(Ok((range, Token::Ident(ident)))) => {
                        end = range.end;
                        let ghost before = result@;
                        result.push(ident);
                        proof {
                            assert(result@.map_values(|n: String| n@) =~= before.map_values(
                                |n: String| n@,
                            ).push(result@.last()@));
                        }
                    },
                    Some(Ok((range, t))) => {
                        return Err(
                            CompilerError::UnexpectedTokenError(
                                UnexpectedTokenError { range, found: t },
                            ),
                        );
                    },
                    Some(Err(e)) => {
                        return Err(CompilerError::SyntaxError(e));
                    },
                    None => {
                        return Err(CompilerError::MissingTokenError);
                    },
                }
            } else {
                return Ok(RangeAnnotation::new(start..end, Qualifier::from(result)));
            }
        }
    }

    /// Reads a type.
    fn parse_type(&mut self) -> (r: Result<RangeAnnotation<CeriumType>, CompilerError>)
        requires
            old(self).wf(),
            !type_expr(old(self).tokens(), old(self).index()).is_unsupported(),
        ensures
            Parser::moved_on(old(self), final(self)),
            type_expr(old(self).tokens(), old(self).index()) == outcome(r, final(self).index()),
        decreases old(self).remaining(), 0nat,
    {
        match self.next_item() {
            None => Err(CompilerError::MissingTokenError),
            Some(Err(e)) => Err(CompilerError::SyntaxError(e)),
            Some(Ok((range, t))) => match t {
                Token::I16 => Ok(RangeAnnotation::new(range, CeriumType::I16)),
                Token::U16 => Ok(RangeAnnotation::new(range, CeriumType::U16)),
                Token::F16 => Ok(RangeAnnotation::new(range, CeriumType::F16)),
                Token::Bool => Ok(RangeAnnotation::new(range, CeriumType::Bool)),
                Token::Any => Ok(RangeAnnotation::new(range, CeriumType::Any)),
                Token::Ident(ident) => Ok(RangeAnnotation::new(range, CeriumType::Struct(ident))),
                Token::Ampersand => {
                    let inner = self.parse_type()?;
                    Ok(
                        RangeAnnotation::new(
                            range.start..inner.range.end,
                            CeriumType::Pointer(Box::new(inner.inner)),
                        ),
                    )
                },
                Token::And => {
                    let inner = self.parse_type()?;
                    let end = inner.range.end;
                    let ghost inner_view = inner.inner@;
                    let pointer = CeriumType::Pointer(Box::new(inner.inner));
                    assert(pointer@ == SpecType::Pointer(Box::new(inner_view)));
                    Ok(RangeAnnotation::new(range.start..end, CeriumType::Pointer(Box::new(pointer))))
                },
                Token::Fn => self.parse_function_type(range),
                _ => Err(CompilerError::UnexpectedTokenError(UnexpectedTokenError { range, found: t })),
            },
        }
    }

    /// Reads the rest of a function type `fn(types) -> type`; its `fn`, at `range`,
    /// is the item just read.
    fn parse_function_type(&mut self, range: Range<usize>) -> (r: Result<
        RangeAnnotation<CeriumType>,
        CompilerError,
    >)
        requires
            old(self).wf(),
            old(self).index() >= 1,
            look(old(self).tokens(), old(self).index() - 1) == Look::Item(
                Ok((range, SpecToken::Fn)),
            ),
            !type_expr(old(self).tokens(), old(self).index() - 1).is_unsupported(),
        ensures
            Parser::moved_on(old(self), final(self)),
            type_expr(old(self).tokens(), old(self).index() - 1) == outcome(r, final(self).index()),
        decreases old(self).remaining(), 0nat,
    {
        self.expect_token(&Token::LParen)?;
        let param_types = self.parse_type_list()?;
        let close = self.expect_token(&Token::RParen)?;
        let mut end = close.end;
        let item = self.peek_item();
        let return_type = if let Some(Ok((arrow, Token::Arrow))) = item {
            self.next_item();
            end = arrow.end;
            Some(Box::new(self.parse_type()?.inner))
        } else {
            None
        };
        Ok(RangeAnnotation::new(range.start..end, CeriumType::Function(param_types, return_type)))
    }

    /// Reads the parameter types of a function type, up to the closing parenthesis.
    fn parse_type_list(&mut self) -> (r: Result<Vec<CeriumType>, CompilerError>)
        requires
            old(self).wf(),
            !type_list(old(self).tokens(), old(self).index(), Seq::empty()).is_unsupported(),
        ensures
            Parser::moved_on(old(self), final(self)),
            type_list(old(self).tokens(), old(self).index(), Seq::empty()) == match r {
                Ok(v) => Parsed::Value(types_view(v@), final(self).index()),
                Err(e) => Parsed::Error(e@, final(self).index()),
            },
        decreases old(self).remaining(), 1nat,
    {
        let ghost s = self.tokens();
        let ghost i0 = self.index();
        let mut param_types: Vec<CeriumType> = Vec::new();
        loop
            invariant
                Parser::moved_on(old(self), self),
                s == old(self).tokens(),
                i0 == old(self).index(),
                type_list(s, i0, Seq::empty()) == type_list(
                    s,
                    self.index(),
                    types_view(param_types@),
                ),
                !type_list(s, i0, Seq::empty()).is_unsupported(),
            decreases self.remaining(),
        {
            let ghost cur = self.index();
            let item = self.peek_item();
            if let Some(Ok((_, Token::RParen))) = item {
                return Ok(param_types);
            }
            let parsed = self.parse_type()?;
            let ghost t = parsed@;
            assert(type_expr(s, cur) == Parsed::Value(t, self.index()));
            let param_type = parsed.inner;
            let ghost before = param_types@;
            param_types.push(param_type);
            proof {
                assert(param_types@.subrange(0, param_types@.len() - 1) =~= before);
            }
            let item = self.peek_item();
            if let Some(Ok((_, Token::Comma))) = item {
                self.next_item();
            } else {
                return Ok(param_types);
            }
        }
    }

    /// Reads an expression: an assignment `target = value`, or an operation.
    fn parse_expression(&mut self) -> (r: Result<RangeAnnotation<Expression>, CompilerError>)
        requires
            old(self).wf(),
            !expression(old(self).tokens(), old(self).index()).is_unsupported(),
        ensures
            Parser::moved_on(old(self), final(self)),
            expression(old(self).tokens(), old(self).index()) == outcome(r, final(self).index()),
        decreases old(self).remaining(), 30nat,
    {
        let target = self.parse_binary(Precedence::Logical)?;
        let item = self.peek_item();
        if let Some(Ok((_, Token::Assign))) = item {
            self.next_item();
            let value = self.parse_expression()?;
            let range = target.range.start..value.range.end;
            Ok(RangeAnnotation::new(range, make_binary(BinaryOp::Assignment, target, value)))
        } else {
            Ok(target)
        }
    }

    /// Reads an operand of level `l`.
    fn parse_operand(&mut self, l: Precedence) -> (r: Result<RangeAnnotation<Expression>, CompilerError>)
        requires
            old(self).wf(),
            !operand(l, old(self).tokens(), old(self).index()).is_unsupported(),
        ensures
            Parser::moved_on(old(self), final(self)),
            operand(l, old(self).tokens(), old(self).index()) == outcome(r, final(self).index()),
        decreases old(self).remaining(), (level_rank(l) - 1) as nat,
    {
        match tighter_level(l) {
            Some(m) => self.parse_binary(m),
            None => self.parse_typing_operation(),
        }
    }

    /// Reads operands of level `l` joined, from left to right, by its operators.
    fn parse_binary(&mut self, l: Precedence) -> (r: Result<RangeAnnotation<Expression>, CompilerError>)
        requires
            old(self).wf(),
            !binary(l, old(self).tokens(), old(self).index()).is_unsupported(),
        ensures
            Parser::moved_on(old(self), final(self)),
            binary(l, old(self).tokens(), old(self).index()) == outcome(r, final(self).index()),
        decreases old(self).remaining(), level_rank(l),
    {
        let ghost s = self.tokens();
        let ghost i0 = self.index();
        let mut lhs = self.parse_operand(l)?;
        loop
            invariant
                Parser::moved_on(old(self), self),
                s == old(self).tokens(),
                i0 == old(self).index(),
                binary(l, s, i0) == binary_rest(l, s, self.index(), lhs@),
                !binary(l, s, i0).is_unsupported(),
            decreases self.remaining(),
        {
            let item = self.peek_item();
            let op = match &item {
                Some(Ok((_, t))) => binary_operator(l, t),
                _ => None,
            };
            match op {
                Some(op) => {
                    self.next_item();
                    let rhs = self.parse_operand(l)?;
                    let range = lhs.range.start..rhs.range.end;
                    lhs = RangeAnnotation::new(range, make_binary(op, lhs, rhs));
                },
                None => {
                    return Ok(lhs);
                },
            }
        }
    }

    /// Reads a prefixed value followed by `alias type` conversions.
    fn parse_typing_operation(&mut self) -> (r: Result<RangeAnnotation<Expression>, CompilerError>)
        requires
            old(self).wf(),
            !typing(old(self).tokens(), old(self).index()).is_unsupported(),
        ensures
            Parser::moved_on(old(self), final(self)),
            typing(old(self).tokens(), old(self).index()) == outcome(r, final(self).index()),
        decreases old(self).remaining(), 18nat,
    {
        let ghost s = self.tokens();
        let ghost i0 = self.index();
        let mut value = self.parse_prefix_operation()?;
        loop
            invariant
                Parser::moved_on(old(self), self),
                s == old(self).tokens(),
                i0 == old(self).index(),
                typing(s, i0) == typing_rest(s, self.index(), value@),
                !typing(s, i0).is_unsupported(),
            decreases self.remaining(),
        {
            let item = self.peek_item();
            match item {
                Some(Ok((_, Token::Alias))) => {
                    self.next_item();
                    let target_type = self.parse_type()?;
                    let range = value.range.start..target_type.range.end;
                    value = RangeAnnotation::new(
                        range,
                        Expression::TypeAlias(Box::new(TypeAlias { value, target_type })),
                    );
                },
                Some(Ok((_, Token::As))) => {
                    proof {
                        assert(false);
                    }
                    return Ok(value);
                },
                _ => {
                    return Ok(value);
                },
            }
        }
    }

    /// Reads a value preceded by prefix operators.
    fn parse_prefix_operation(&mut self) -> (r: Result<RangeAnnotation<Expression>, CompilerError>)
        requires
            old(self).wf(),
            !prefixed(old(self).tokens(), old(self).index()).is_unsupported(),
        ensures
            Parser::moved_on(old(self), final(self)),
            prefixed(old(self).tokens(), old(self).index()) == outcome(r, final(self).index()),
        decreases old(self).remaining(), 16nat,
    {
        let item = self.peek_item();
        match item {
            None => Err(CompilerError::MissingTokenError),
            Some(Err(e)) => Err(CompilerError::SyntaxError(e)),
            Some(Ok((range, t))) => match prefix_op(&t) {
                Some(op) => {
                    self.next_item();
                    let inner = self.parse_prefix_operation()?;
                    let range = range.start..inner.range.end;
                    Ok(RangeAnnotation::new(range, make_unary(op, inner)))
                },
                None => self.parse_value(),
            },
        }
    }

    /// Reads a value followed by field accesses, indexing and calls.
    fn parse_value(&mut self) -> (r: Result<RangeAnnotation<Expression>, CompilerError>)
        requires
            old(self).wf(),
            !value(old(self).tokens(), old(self).index()).is_unsupported(),
        ensures
            Parser::moved_on(old(self), final(self)),
            value(old(self).tokens(), old(self).index()) == outcome(r, final(self).index()),
        decreases old(self).remaining(), 15nat,
    {
        let head = self.parse_primary()?;
        self.parse_postfix(head)
    }

    /// Reads a scope, a parenthesized expression, a `let`, `if`, `for`, `loop` or
    /// `while` expression, a constant or a variable.
    fn parse_primary(&mut self) -> (r: Result<RangeAnnotation<Expression>, CompilerError>)
        requires
            old(self).wf(),
            !primary(old(self).tokens(), old(self).index()).is_unsupported(),
        ensures
            Parser::moved_on(old(self), final(self)),
            primary(old(self).tokens(), old(self).index()) == outcome(r, final(self).index()),
        decreases old(self).remaining(), 13nat,
    {
        let item = self.peek_item();
        match item {
            None => Err(CompilerError::MissingTokenError),
            Some(Err(e)) => Err(CompilerError::SyntaxError(e)),
            Some(Ok((range, t))) => match t {
                Token::LBrace => self.parse_scope(),
                Token::LParen => self.parse_parens(),
                Token::Let => self.parse_let(),
                Token::If => self.parse_if(),
                Token::For => self.parse_for(),
                Token::Loop => self.parse_loop(),
                Token::While => self.parse_while(),
                Token::Ident(_) => self.parse_variable(),
                Token::UnsignedInt(_) | Token::Float(_) | Token::True | Token::False
                | Token::Nullptr => {
                    self.next_item();
                    Ok(RangeAnnotation::new(range, constant(t)))
                },
                _ => Err(CompilerError::UnexpectedTokenError(UnexpectedTokenError { range, found: t })),
            },
        }
    }

    /// Reads a name as a variable.
    fn parse_variable(&mut self) -> (r: Result<RangeAnnotation<Expression>, CompilerError>)
        requires
            old(self).wf(),
            !qualifier(old(self).tokens(), old(self).index()).is_unsupported(),
        ensures
            Parser::moved_on(old(self), final(self)),
            match qualifier(old(self).tokens(), old(self).index()) {
                Parsed::Value(q, j) => r is Ok && r->Ok_0@ == RangeAnnotation {
                    range: q.range,
                    inner: SpecExpr::Variable(q.inner),
                } && j == final(self).index(),
                Parsed::Error(e, j) => r is Err && r->Err_0@ == e && j == final(self).index(),
                Parsed::Unsupported => false,
            },
    {
        let q = self.parse_qualifier()?;
        Ok(RangeAnnotation::new(q.range, Expression::Variable(q.inner)))
    }

    /// Reads the field accesses, indexing and calls that follow `v`.
    fn parse_postfix(&mut self, v: RangeAnnotation<Expression>) -> (r: Result<
        RangeAnnotation<Expression>,
        CompilerError,
    >)
        requires
            old(self).wf(),
            !postfix(old(self).tokens(), old(self).index(), v@).is_unsupported(),
        ensures
            Parser::moved_on(old(self), final(self)),
            postfix(old(self).tokens(), old(self).index(), v@) == outcome(r, final(self).index()),
        decreases old(self).remaining(), 14nat,
    {
        let ghost s = self.tokens();
        let ghost i0 = self.index();
        let mut result = v;
        loop
            invariant
                Parser::moved_on(old(self), self),
                s == old(self).tokens(),
                i0 == old(self).index(),
                postfix(s, i0, v@) == postfix(s, self.index(), result@),
                !postfix(s, i0, v@).is_unsupported(),
            decreases self.remaining(),
        {
            let item = self.peek_item();
            match item {
                Some(Ok((_, Token::Dot))) => {
                    self.next_item();
                    match self.next_item() {
                        Some(Ok((range, Token::Ident(name)))) => {
                            let field = RangeAnnotation::new(range, Qualifier::from_str(name));
                            let range = result.range.start..field.range.end;
                            result = RangeAnnotation::new(
                                range,
                                Expression::FieldAccess(Box::new(FieldAccess { base: result, field })),
                            );
                        },
                        Some(Ok((range, t))) => {
                            return Err(
                                CompilerError::UnexpectedTokenError(
                                    UnexpectedTokenError { range, found: t },
                                ),
                            );
                        },
                        Some(Err(e)) => {
                            return Err(CompilerError::SyntaxError(e));
                        },
                        None => {
                            return Err(CompilerError::MissingTokenError);
                        },
                    }
                },
                Some(Ok((_, Token::LBracket))) => {
                    self.next_item();
                    let index = self.parse_expression()?;
                    let close = self.expect_token(&Token::RBracket)?;
                    let range = result.range.start..close.end;
                    result = RangeAnnotation::new(
                        range,
                        Expression::ArrayAccess(Box::new(ArrayAccess { base: result, index })),
                    );
                },
                Some(Ok((_, Token::LParen))) => {
                    self.next_item();
                    let params = self.parse_call_args()?;
                    let close = self.expect_token(&Token::RParen)?;
                    let range = result.range.start..close.end;
                    result = RangeAnnotation::new(
                        range,
                        Expression::FunctionCall(Box::new(FunctionCall { func: result, params })),
                    );
                },
                _ => {
                    return Ok(result);
                },
            }
        }
    }

    /// Reads the arguments of a call, up to the closing parenthesis.
    fn parse_call_args(&mut self) -> (r: Result<Vec<RangeAnnotation<Expression>>, CompilerError>)
        requires
            old(self).wf(),
            !call_args(old(self).tokens(), old(self).index(), Seq::empty()).is_unsupported(),
        ensures
            Parser::moved_on(old(self), final(self)),
            call_args(old(self).tokens(), old(self).index(), Seq::empty()) == match r {
                Ok(v) => Parsed::Value(nodes_view(v@), final(self).index()),
                Err(e) => Parsed::Error(e@, final(self).index()),
            },
        decreases old(self).remaining(), 31nat,
    {
        let ghost s = self.tokens();
        let ghost i0 = self.index();
        let mut params: Vec<RangeAnnotation<Expression>> = Vec::new();
        loop
            invariant
                Parser::moved_on(old(self), self),
                s == old(self).tokens(),
                i0 == old(self).index(),
                call_args(s, i0, Seq::empty()) == call_args(s, self.index(), nodes_view(params@)),
                !call_args(s, i0, Seq::empty()).is_unsupported(),
            decreases self.remaining(),
        {
            let ghost cur = self.index();
            proof {
                if !is_token(s, cur, SpecToken::RParen) {
                }
            }
            let item = self.peek_item();
            if let Some(Ok((_, Token::RParen))) = item {
                return Ok(params);
            }
            let e = self.parse_expression()?;
            let ghost j = self.index();
            let ghost before = params@;
            proof {
                lemma_nodes_view_push(before, e);
                assert(expression(s, cur) == Parsed::Value(e@, j));
                assert(call_args(s, cur, nodes_view(before)) == if is_token(s, j, SpecToken::Comma) {
                    call_args(s, j + 1, nodes_view(before).push(e@))
                } else {
                    Parsed::Value(nodes_view(before).push(e@), j)
                });
            }
            params.push(e);
            let item = self.peek_item();
            if let Some(Ok((_, Token::Comma))) = item {
                self.next_item();
            } else {
                return Ok(params);
            }
        }
    }

    /// Reads a scope `{ expr; ...; value }`.
    fn parse_scope(&mut self) -> (r: Result<RangeAnnotation<Expression>, CompilerError>)
        requires
            old(self).wf(),
            !scope(old(self).tokens(), old(self).index()).is_unsupported(),
        ensures
            Parser::moved_on(old(self), final(self)),
            scope(old(self).tokens(), old(self).index()) == outcome(r, final(self).index()),
        decreases old(self).remaining(), 12nat,
    {
        let open = self.expect_token(&Token::LBrace)?;
        let (instructions, value) = self.parse_scope_items()?;
        let close = self.expect_token(&Token::RBrace)?;
        Ok(
            RangeAnnotation::new(
                open.start..close.end,
                Expression::Scope(Box::new(Scope { instructions, value })),
            ),
        )
    }

    /// Reads the expressions of a scope ended by `;` and the one that ends it without `;`.
    fn parse_scope_items(&mut self) -> (r: Result<
        (Vec<RangeAnnotation<Expression>>, Option<RangeAnnotation<Expression>>),
        CompilerError,
    >)
        requires
            old(self).wf(),
            !scope_items(old(self).tokens(), old(self).index(), Seq::empty()).is_unsupported(),
        ensures
            Parser::moved_on(old(self), final(self)),
            scope_items(old(self).tokens(), old(self).index(), Seq::empty()) == match r {
                Ok((v, o)) => Parsed::Value(
                    (
                        nodes_view(v@),
                        match o {
                            Some(e) => Some(node_view(e)),
                            None => None,
                        },
                    ),
                    final(self).index(),
                ),
                Err(e) => Parsed::Error(e@, final(self).index()),
            },
        decreases old(self).remaining(), 31nat,
    {
        let ghost s = self.tokens();
        let ghost i0 = self.index();
        let mut instructions: Vec<RangeAnnotation<Expression>> = Vec::new();
        loop
            invariant
                Parser::moved_on(old(self), self),
                s == old(self).tokens(),
                i0 == old(self).index(),
                scope_items(s, i0, Seq::empty()) == scope_items(
                    s,
                    self.index(),
                    nodes_view(instructions@),
                ),
                !scope_items(s, i0, Seq::empty()).is_unsupported(),
            decreases self.remaining(),
        {
            let ghost cur = self.index();
            proof {
                if !is_token(s, cur, SpecToken::RBrace) {
                }
            }
            let item = self.peek_item();
            if let Some(Ok((_, Token::RBrace))) = item {
                return Ok((instructions, None));
            }
            let e = self.parse_expression()?;
            let ghost j = self.index();
            let ghost before = instructions@;
            proof {
                lemma_nodes_view_push(before, e);
                assert(expression(s, cur) == Parsed::Value(e@, j));
                assert(scope_items(s, cur, nodes_view(before)) == if is_token(
                    s,
                    j,
                    SpecToken::Semicolon,
                ) {
                    scope_items(s, j + 1, nodes_view(before).push(e@))
                } else {
                    Parsed::Value((nodes_view(before), Some(e@)), j)
                });
            }
            let item = self.peek_item();
            if let Some(Ok((_, Token::Semicolon))) = item {
                self.next_item();
                instructions.push(e);
            } else {
                return Ok((instructions, Some(e)));
            }
        }
    }

    /// Reads `( expr )`.
    fn parse_parens(&mut self) -> (r: Result<RangeAnnotation<Expression>, CompilerError>)
        requires
            old(self).wf(),
            !parens(old(self).tokens(), old(self).index()).is_unsupported(),
        ensures
            Parser::moved_on(old(self), final(self)),
            parens(old(self).tokens(), old(self).index()) == outcome(r, final(self).index()),
        decreases old(self).remaining(), 12nat,
    {
        self.expect_token(&Token::LParen)?;
        let result = self.parse_expression();
        self.expect_token(&Token::RParen)?;
        result
    }

    /// Reads `let name = value`, or `let name = value in body`.
    fn parse_let(&mut self) -> (r: Result<RangeAnnotation<Expression>, CompilerError>)
        requires
            old(self).wf(),
            !let_expr(old(self).tokens(), old(self).index()).is_unsupported(),
        ensures
            Parser::moved_on(old(self), final(self)),
            let_expr(old(self).tokens(), old(self).index()) == outcome(r, final(self).index()),
        decreases old(self).remaining(), 12nat,
    {
        let start = self.expect_token(&Token::Let)?.start;
        let name = self.expect_name()?;
        self.expect_token(&Token::Assign)?;
        let value = self.parse_expression()?;
        let item = self.peek_item();
        if let Some(Ok((_, Token::In))) = item {
            self.next_item();
            let body = self.parse_expression()?;
            let range = start..body.range.end;
            Ok(RangeAnnotation::new(range, Expression::LetIn(Box::new(LetIn { name, value, body }))))
        } else {
            let range = start..value.range.end;
            Ok(RangeAnnotation::new(range, Expression::Let(Box::new(Let { name, value }))))
        }
    }

    /// Reads `if condition { .. }`, optionally followed by `else { .. }`.
    fn parse_if(&mut self) -> (r: Result<RangeAnnotation<Expression>, CompilerError>)
        requires
            old(self).wf(),
            !if_expr(old(self).tokens(), old(self).index()).is_unsupported(),
        ensures
            Parser::moved_on(old(self), final(self)),
            if_expr(old(self).tokens(), old(self).index()) == outcome(r, final(self).index()),
        decreases old(self).remaining(), 12nat,
    {
        let start = self.expect_token(&Token::If)?.start;
        let condition = self.parse_expression()?;
        let if_branch = self.parse_scope()?;
        let item = self.peek_item();
        if let Some(Ok((_, Token::Else))) = item {
            self.next_item();
            let else_branch = self.parse_scope()?;
            let range = start..else_branch.range.end;
            Ok(
                RangeAnnotation::new(
                    range,
                    Expression::If(
                        Box::new(If { condition, if_branch, else_branch: Some(else_branch) }),
                    ),
                ),
            )
        } else {
            let range = start..if_branch.range.end;
            Ok(
                RangeAnnotation::new(
                    range,
                    Expression::If(Box::new(If { condition, if_branch, else_branch: None })),
                ),
            )
        }
    }

    /// Reads `for name to limit { .. }`, `for name downto limit { .. }` or
    /// `for name in iterator { .. }`.
    fn parse_for(&mut self) -> (r: Result<RangeAnnotation<Expression>, CompilerError>)
        requires
            old(self).wf(),
            !for_expr(old(self).tokens(), old(self).index()).is_unsupported(),
        ensures
            Parser::moved_on(old(self), final(self)),
            for_expr(old(self).tokens(), old(self).index()) == outcome(r, final(self).index()),
        decreases old(self).remaining(), 12nat,
    {
        let start = self.expect_token(&Token::For)?.start;
        let var = self.parse_qualifier()?;
        match self.next_item() {
            None => Err(CompilerError::MissingTokenError),
            Some(Err(e)) => Err(CompilerError::SyntaxError(e)),
            Some(Ok((range, t))) => match t {
                Token::To => {
                    let limit = self.parse_expression()?;
                    let body = self.parse_scope()?;
                    let range = start..body.range.end;
                    Ok(RangeAnnotation::new(range, Expression::ForTo(Box::new(ForTo { var, limit, body }))))
                },
                Token::DownTo => {
                    let limit = self.parse_expression()?;
                    let body = self.parse_scope()?;
                    let range = start..body.range.end;
                    Ok(
                        RangeAnnotation::new(
                            range,
                            Expression::ForDownTo(Box::new(ForDownTo { var, limit, body })),
                        ),
                    )
                },
                Token::In => {
                    let iterator = self.parse_expression()?;
                    let body = self.parse_scope()?;
                    let range = start..body.range.end;
                    Ok(
                        RangeAnnotation::new(
                            range,
                            Expression::ForIn(Box::new(ForIn { var, iterator, body })),
                        ),
                    )
                },
                _ => Err(CompilerError::UnexpectedTokenError(UnexpectedTokenError { range, found: t })),
            },
        }
    }

    /// Reads `while condition { .. }`.
    fn parse_while(&mut self) -> (r: Result<RangeAnnotation<Expression>, CompilerError>)
        requires
            old(self).wf(),
            !while_expr(old(self).tokens(), old(self).index()).is_unsupported(),
        ensures
            Parser::moved_on(old(self), final(self)),
            while_expr(old(self).tokens(), old(self).index()) == outcome(r, final(self).index()),
        decreases old(self).remaining(), 12nat,
    {
        let start = self.expect_token(&Token::While)?.start;
        let condition = self.parse_expression()?;
        let body = self.parse_scope()?;
        let range = start..body.range.end;
        Ok(RangeAnnotation::new(range, Expression::While(Box::new(While { condition, body }))))
    }

    /// Reads `loop { .. }`.
    fn parse_loop(&mut self) -> (r: Result<RangeAnnotation<Expression>, CompilerError>)
        requires
            old(self).wf(),
            !loop_expr(old(self).tokens(), old(self).index()).is_unsupported(),
        ensures
            Parser::moved_on(old(self), final(self)),
            loop_expr(old(self).tokens(), old(self).index()) == outcome(r, final(self).index()),
        decreases old(self).remaining(), 12nat,
    {
        let start = self.expect_token(&Token::Loop)?.start;
        let body = self.parse_scope()?;
        let range = start..body.range.end;
        Ok(RangeAnnotation::new(range, Expression::Loop(Box::new(Loop { body }))))
    }

    /// Reads typed names `name: type` separated by commas, up to the token `close`.
    fn parse_fields(&mut self, close: &Token) -> (r: Result<
        Vec<(RangeAnnotation<Qualifier>, RangeAnnotation<CeriumType>)>,
        CompilerError,
    >)
        requires
            old(self).wf(),
            is_symbol(close@),
            !field_list(old(self).tokens(), old(self).index(), Seq::empty(), close@).is_unsupported(),
        ensures
            Parser::moved_on(old(self), final(self)),
            field_list(old(self).tokens(), old(self).index(), Seq::empty(), close@) == match r {
                Ok(v) => Parsed::Value(fields_view(v@), final(self).index()),
                Err(e) => Parsed::Error(e@, final(self).index()),
            },
    {
        let ghost s = self.tokens();
        let ghost i0 = self.index();
        let mut fields: Vec<(RangeAnnotation<Qualifier>, RangeAnnotation<CeriumType>)> = Vec::new();
        assert(fields_view(fields@) =~= Seq::<SpecField>::empty());
        loop
            invariant
                Parser::moved_on(old(self), self),
                s == old(self).tokens(),
                i0 == old(self).index(),
                is_symbol(close@),
                field_list(s, i0, Seq::empty(), close@) == field_list(
                    s,
                    self.index(),
                    fields_view(fields@),
                    close@,
                ),
                !field_list(s, i0, Seq::empty(), close@).is_unsupported(),
            decreases self.remaining(),
        {
            let item = self.peek_item();
            if let Some(Ok((_, t))) = &item {
                if t.is(close) {
                    return Ok(fields);
                }
            }
            let name = self.expect_name()?;
            self.expect_token(&Token::Colon)?;
            let field_type = self.parse_type()?;
            let ghost before = fields@;
            fields.push((name, field_type));
            proof {
                assert(fields_view(fields@) =~= fields_view(before).push(
                    (name_view_of(fields@.last().0), type_view_of(fields@.last().1)),
                ));
            }
            let item = self.peek_item();
            if let Some(Ok((_, Token::Comma))) = item {
                self.next_item();
            } else {
                return Ok(fields);
            }
        }
    }

    /// Reads `fn name(parameters) -> type { .. }`.
    fn parse_function(&mut self) -> (r: Result<Definition, CompilerError>)
        requires
            old(self).wf(),
            !function_def(old(self).tokens(), old(self).index()).is_unsupported(),
        ensures
            Parser::moved_on(old(self), final(self)),
            function_def(old(self).tokens(), old(self).index()) == outcome(r, final(self).index()),
    {
        self.expect_token(&Token::Fn)?;
        let name = self.parse_qualifier()?;
        self.expect_token(&Token::LParen)?;
        let parameters = self.parse_fields(&Token::RParen)?;
        self.expect_token(&Token::RParen)?;
        let item = self.peek_item();
        let return_type = if let Some(Ok((_, Token::Arrow))) = item {
            self.next_item();
            Some(self.parse_type()?)
        } else {
            None
        };
        let body = self.parse_scope()?;
        Ok(Definition::Function(Function { name, parameters, return_type, body }))
    }

    /// Reads `const name: type = value;`.
    fn parse_const(&mut self) -> (r: Result<Definition, CompilerError>)
        requires
            old(self).wf(),
            !const_def(old(self).tokens(), old(self).index()).is_unsupported(),
        ensures
            Parser::moved_on(old(self), final(self)),
            const_def(old(self).tokens(), old(self).index()) == outcome(r, final(self).index()),
    {
        self.expect_token(&Token::Const)?;
        let name = self.parse_qualifier()?;
        self.expect_token(&Token::Colon)?;
        let const_type = self.parse_type()?;
        self.expect_token(&Token::Assign)?;
        let value = self.parse_expression()?;
        self.expect_token(&Token::Semicolon)?;
        Ok(Definition::Const(Const { name, const_type, value }))
    }

    /// Reads `struct name { attributes }`.
    fn parse_struct(&mut self) -> (r: Result<Definition, CompilerError>)
        requires
            old(self).wf(),
            !struct_def(old(self).tokens(), old(self).index()).is_unsupported(),
        ensures
            Parser::moved_on(old(self), final(self)),
            struct_def(old(self).tokens(), old(self).index()) == outcome(r, final(self).index()),
    {
        self.expect_token(&Token::Struct)?;
        let name = self.parse_qualifier()?;
        self.expect_token(&Token::LBrace)?;
        let attributes = self.parse_fields(&Token::RBrace)?;
        self.expect_token(&Token::RBrace)?;
        Ok(Definition::Struct(Struct { name, attributes }))
    }

    /// Reads one definition; `None` when no item is left.
    fn parse_definition(&mut self) -> (r: Option<Result<Definition, CompilerError>>)
        requires
            old(self).wf(),
            look(old(self).tokens(), old(self).index()) is End || !definition(
                old(self).tokens(),
                old(self).index(),
            ).is_unsupported(),
        ensures
            Parser::moved_on(old(self), final(self)),
            if look(old(self).tokens(), old(self).index()) is End {
                r is None && final(self).index() == old(self).index()
            } else {
                r is Some && definition(old(self).tokens(), old(self).index()) == outcome(
                    r->0,
                    final(self).index(),
                )
            },
    {
        let item = self.peek_item();
        match item {
            None => None,
            Some(Ok((_, Token::Fn))) => Some(self.parse_function()),
            Some(Ok((_, Token::Struct))) => Some(self.parse_struct()),
            Some(Ok((_, Token::Const))) => Some(self.parse_const()),
            Some(Ok((range, t))) => {
                self.next_item();
                Some(Err(CompilerError::UnexpectedTokenError(UnexpectedTokenError { range, found: t })))
            },
            Some(Err(e)) => Some(Err(CompilerError::SyntaxError(e))),
        }
    }

    /// Reads the definitions of a program until the items run out.
    pub fn parse(&mut self) -> (r: Result<Program, CompilerError>)
        requires
            old(self).wf(),
            !definitions(old(self).tokens(), old(self).index(), Seq::empty()).is_unsupported(),
        ensures
            final(self).wf(),
            final(self).tokens() == old(self).tokens(),
            match definitions(old(self).tokens(), old(self).index(), Seq::empty()) {
                Parsed::Value(defs, j) => r is Ok && r->Ok_0@ == defs && final(self).index() == j,
                Parsed::Error(e, j) => r is Err && r->Err_0@ == e && final(self).index() == j,
                Parsed::Unsupported => false,
            },
    {
        let ghost s = self.tokens();
        let ghost i0 = self.index();
        let mut definitions: Vec<Definition> = Vec::new();
        assert(definitions@.map_values(|d: Definition| d@) =~= Seq::<SpecDefinition>::empty());
        loop
            invariant
                Parser::moved_on(old(self), self),
                s == old(self).tokens(),
                i0 == old(self).index(),
                grammar::definitions(s, i0, Seq::empty()) == grammar::definitions(
                    s,
                    self.index(),
                    definitions@.map_values(|d: Definition| d@),
                ),
                !grammar::definitions(s, i0, Seq::empty()).is_unsupported(),
            decreases self.remaining(),
        {
            let ghost before = definitions@;
            match self.parse_definition() {
                Some(d) => {
                    let d = d?;
                    definitions.push(d);
                    proof {
                        assert(definitions@.map_values(|d: Definition| d@) =~= before.map_values(
                            |d: Definition| d@,
                        ).push(definitions@.last()@));
                    }
                },
                None => {
                    return Ok(Program { definitions });
                },
            }
        }
    }
}

/// Whether the lexer, read from where it stands to the end, returns the token `as`,
/// for which the parser has no rule.
pub fn stream_has_cast(lexer: &Lexer) -> (r: bool)
    ensures
        r == !no_cast(token_stream(lexer.source(), lexer.position())),
{
    let mut rest = lexer.duplicate();
    let _ = rest.offset();
    let ghost cs = lexer.source();
    let ghost whole = token_stream(cs, lexer.position());
    let ghost mut seen: int = 0;
    proof {
        assert(suffix(whole, 0).items =~= whole.items);
    }
    loop
        invariant
            cs == lexer.source(),
            whole == token_stream(cs, lexer.position()),
            rest.source() == cs,
            0 <= rest.position() <= cs.len() <= usize::MAX,
            0 <= seen <= whole.items.len(),
            token_stream(cs, rest.position()) == suffix(whole, seen),
            forall|k: int| 0 <= k < seen ==> !(#[trigger] whole.items[k] matches Ok((_, SpecToken::As))),
        decreases cs.len() - rest.position(),
    {
        let ghost p = rest.position();
        proof {
            lemma_stream_step(cs, p);
        }
        let item = rest.next();
        let _ = rest.offset();
        match item {
            None => {
                proof {
                    assert(lex_step(cs, p, false) is End);
                    assert(suffix(whole, seen).items.len() == 0);
                    assert(seen == whole.items.len());
                    assert forall|k: int| 0 <= k < whole.items.len() implies !(#[trigger] whole.items[k] matches Ok((_, SpecToken::As))) by {}
                }
                return false;
            },
            Some(x) => {
                proof {
                    assert(lex_step(cs, p, false) is Item);
                    lemma_suffix_suffix(whole, seen);
                    assert(whole.items[seen] == item_view(x));
                }
                let is_cast = match x {
                    Ok((_, Token::As)) => true,
                    _ => false,
                };
                if is_cast {
                    proof {
                        assert(whole.items[seen] matches Ok((_, SpecToken::As)));
                    }
                    return true;
                }
                proof {
                    assert(!(whole.items[seen] matches Ok((_, SpecToken::As))));
                    seen = seen + 1;
                }
            },
        }
    }
}

/// The program in `code`, or its first error; `None` when the lexer returns the token
/// `as`, for which the parser has no rule.
pub fn parse_source(code: &str) -> (r: Option<Result<Program, CompilerError>>)
    ensures
        match r {
            None => !no_cast(token_stream(code@, 0)),
            Some(res) => no_cast(token_stream(code@, 0)) && match grammar::program(token_stream(code@, 0)) {
                Parsed::Value(defs, _) => res is Ok && res->Ok_0@ == defs,
                Parsed::Error(e, _) => res is Err && res->Err_0@ == e,
                Parsed::Unsupported => false,
            },
        },
{
    let lexer = Lexer::new(code);
    if stream_has_cast(&lexer) {
        return None;
    }
    let mut parser = Parser::new(lexer);
    proof {
        grammar::law_definitions_settled(parser.tokens(), 0, Seq::empty());
    }
    Some(parser.parse())
}

} // verus!
