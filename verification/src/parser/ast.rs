//! The syntax tree of a program, and its mathematical values.
use crate::lexer::token::{FloatLiteral, SpecFloatLiteral};
use crate::parser::cerium_type::{CeriumType, SpecType};
use crate::text::push_char;
use std::ops::Range;
use vstd::prelude::*;
use vstd::string::*;

verus! {

/// A syntax element together with the range of source characters it spans.
#[derive(Debug)]
pub struct RangeAnnotation<Inner> {
    pub range: Range<usize>,
    pub inner: Inner,
}

impl<Inner> RangeAnnotation<Inner> {
    pub fn new(range: Range<usize>, inner: Inner) -> (r: Self)
        ensures
            r.range == range,
            r.inner == inner,
    {
        RangeAnnotation { range, inner }
    }
}

impl<Inner> std::ops::Deref for RangeAnnotation<Inner> {
    type Target = Inner;

    /// The annotated element.
    fn deref(&self) -> (r: &Inner)
        ensures
            *r == self.inner,
    {
        &self.inner
    }
}

impl<Inner: View> View for RangeAnnotation<Inner> {
    type V = RangeAnnotation<Inner::V>;

    open spec fn view(&self) -> RangeAnnotation<Inner::V> {
        RangeAnnotation { range: self.range, inner: self.inner@ }
    }
}

/// A possibly scoped name: `a::b::c`.
#[derive(Debug)]
pub struct Qualifier {
    pub names: Vec<String>,
}

impl View for Qualifier {
    type V = Seq<Seq<char>>;

    open spec fn view(&self) -> Seq<Seq<char>> {
        self.names@.map_values(|s: String| s@)
    }
}

impl Qualifier {
    /// The name made of the given parts, in order.
    pub fn from(names: Vec<String>) -> (r: Qualifier)
        ensures
            r@ == names@.map_values(|s: String| s@),
    {
        Qualifier { names }
    }

    /// The name made of the single part `name`.
    pub fn from_str(name: String) -> (r: Qualifier)
        ensures
            r@ == seq![name@],
    {
        let mut names = Vec::new();
        names.push(name);
        let r = Qualifier { names };
        assert(r@ =~= seq![r.names@[0]@]);
        r
    }

    /// A copy of this name.
    pub fn duplicate(&self) -> (r: Qualifier)
        ensures
            r@ == self@,
    {
        let mut names: Vec<String> = Vec::new();
        let mut i: usize = 0;
        while i < self.names.len()
            invariant
                i <= self.names@.len(),
                names@.len() == i,
                forall|j: int| 0 <= j < i ==> #[trigger] names@[j]@ == self.names@[j]@,
            decreases self.names@.len() - i,
        {
            names.push(self.names[i].clone());
            i = i + 1;
        }
        let r = Qualifier { names };
        assert(r@ =~= self@);
        r
    }

    /// Whether two names have the same parts.
    pub fn equals(&self, other: &Qualifier) -> (r: bool)
        ensures
            r == (self@ == other@),
    {
        if self.names.len() != other.names.len() {
            assert(self@.len() != other@.len());
            return false;
        }
        let mut i: usize = 0;
        while i < self.names.len()
            invariant
                i <= self.names@.len(),
                self.names@.len() == other.names@.len(),
                forall|j: int| 0 <= j < i ==> #[trigger] self.names@[j]@ == other.names@[j]@,
            decreases self.names@.len() - i,
        {
            if !crate::text::str_equals(self.names[i].as_str(), other.names[i].as_str()) {
                assert(self@[i as int] != other@[i as int]);
                return false;
            }
            i = i + 1;
        }
        assert(self@ =~= other@);
        true
    }

    /// The parts joined by `::`.
    pub fn to_string(&self) -> (r: String)
        ensures
            r@ == join_names(self@),
    {
        let mut r = String::new();
        let mut i: usize = 0;
        while i < self.names.len()
            invariant
                i <= self.names@.len(),
                r@ == join_names(self@.subrange(0, i as int)),
            decreases self.names@.len() - i,
        {
            if i > 0 {
                r.append("::");
            }
            r.append(self.names[i].as_str());
            proof {
                let parts = self@.subrange(0, i + 1);
                assert(parts.drop_last() =~= self@.subrange(0, i as int));
                assert(parts.last() == self.names@[i as int]@);
            }
            i = i + 1;
        }
        assert(self@.subrange(0, self.names@.len() as int) =~= self@);
        r
    }
}

/// Parts joined by `::`.
pub open spec fn join_names(parts: Seq<Seq<char>>) -> Seq<char>
    decreases parts.len(),
{
    if parts.len() == 0 {
        Seq::empty()
    } else if parts.len() == 1 {
        parts[0]
    } else {
        join_names(parts.drop_last()) + "::"@ + parts.last()
    }
}

/// The index of the first `::` in `cs`.
pub open spec fn first_scope(cs: Seq<char>) -> Option<nat>
    decreases cs.len(),
{
    if cs.len() < 2 {
        None
    } else if cs[0] == ':' && cs[1] == ':' {
        Some(0)
    } else {
        match first_scope(cs.drop_first()) {
            Some(i) => Some(i + 1),
            None => None,
        }
    }
}

/// Where `first_scope` finds a `::`, the text goes on for its two characters.
pub proof fn lemma_first_scope_bound(cs: Seq<char>)
    ensures
        first_scope(cs) matches Some(i) ==> i + 2 <= cs.len(),
    decreases cs.len(),
{
    if cs.len() >= 2 && !(cs[0] == ':' && cs[1] == ':') {
        lemma_first_scope_bound(cs.drop_first());
    }
}

/// `cs` cut at each `::`, from the left: the parts between them.
pub open spec fn split_names(cs: Seq<char>) -> Seq<Seq<char>>
    decreases cs.len(),
{
    proof {
        lemma_first_scope_bound(cs);
    }
    match first_scope(cs) {
        Some(i) => seq![cs.subrange(0, i as int)] + split_names(cs.subrange(i + 2int, cs.len() as int)),
        None => seq![cs],
    }
}

/// No part holds a `:`.
pub open spec fn parts_without_colon(names: Seq<Seq<char>>) -> bool {
    forall|i: int, k: int| 0 <= i < names.len() && 0 <= k < names[i].len() ==> names[i][k] != ':'
}

proof fn lemma_join_front(names: Seq<Seq<char>>)
    requires
        names.len() >= 2,
    ensures
        join_names(names) == names[0] + "::"@ + join_names(names.drop_first()),
    decreases names.len(),
{
    let df = names.drop_first();
    let dl = names.drop_last();
    assert(join_names(names) == join_names(dl) + "::"@ + names.last());
    if names.len() > 2 {
        lemma_join_front(dl);
        assert(dl.drop_first() =~= df.drop_last());
        assert(df.last() == names.last());
        assert(dl[0] == names[0]);
        assert(join_names(df) == join_names(df.drop_last()) + "::"@ + df.last());
        assert(join_names(names) =~= names[0] + "::"@ + join_names(df));
    } else {
        assert(dl =~= seq![names[0]]);
        assert(df =~= seq![names[1]]);
        assert(join_names(dl) == names[0]);
        assert(join_names(df) == names[1]);
    }
}

proof fn lemma_no_scope(a: Seq<char>)
    requires
        forall|k: int| 0 <= k < a.len() ==> a[k] != ':',
    ensures
        first_scope(a) is None,
    decreases a.len(),
{
    if a.len() >= 2 {
        lemma_no_scope(a.drop_first());
    }
}

proof fn lemma_first_scope_after(a: Seq<char>, b: Seq<char>)
    requires
        forall|k: int| 0 <= k < a.len() ==> a[k] != ':',
    ensures
        first_scope(a + "::"@ + b) == Some(a.len()),
    decreases a.len(),
{
    reveal_strlit("::");
    let t = a + "::"@ + b;
    if a.len() == 0 {
        assert(t[0] == ':' && t[1] == ':');
    } else {
        assert(t[0] == a[0]);
        assert(t.drop_first() =~= a.drop_first() + "::"@ + b);
        lemma_first_scope_after(a.drop_first(), b);
    }
}

/// Cutting the text of a name at each `::` gives back its parts, when there is at least
/// one part and no part holds a `:`.
pub proof fn law_split_joined_names(names: Seq<Seq<char>>)
    requires
        names.len() > 0,
        parts_without_colon(names),
    ensures
        split_names(join_names(names)) == names,
    decreases names.len(),
{
    reveal_strlit("::");
    if names.len() == 1 {
        lemma_no_scope(names[0]);
        assert(seq![names[0]] =~= names);
    } else {
        lemma_join_front(names);
        let rest = join_names(names.drop_first());
        let t = names[0] + "::"@ + rest;
        lemma_first_scope_after(names[0], rest);
        assert(t.subrange(0, names[0].len() as int) =~= names[0]);
        assert(t.subrange(names[0].len() + 2int, t.len() as int) =~= rest);
        assert(parts_without_colon(names.drop_first())) by {
            assert forall|i: int, k: int| 0 <= i < names.drop_first().len() && 0 <= k < names.drop_first()[i].len()
                implies names.drop_first()[i][k] != ':' by {
                assert(names.drop_first()[i] == names[i + 1]);
            }
        }
        law_split_joined_names(names.drop_first());
        assert(seq![names[0]] + names.drop_first() =~= names);
    }
}

/// A parsed program: its definitions, in order.
#[derive(Debug)]
pub struct Program {
    pub definitions: Vec<Definition>,
}

/// A definition at the top level of a program.
#[derive(Debug)]
pub enum Definition {
    Function(Function),
    Const(Const),
    Struct(Struct),
}

/// `fn name(parameters) -> return_type body`.
#[derive(Debug)]
pub struct Function {
    pub name: RangeAnnotation<Qualifier>,
    pub parameters: Vec<(RangeAnnotation<Qualifier>, RangeAnnotation<CeriumType>)>,
    pub return_type: Option<RangeAnnotation<CeriumType>>,
    pub body: RangeAnnotation<Expression>,
}

/// `const name: const_type = value;`.
#[derive(Debug)]
pub struct Const {
    pub name: RangeAnnotation<Qualifier>,
    pub const_type: RangeAnnotation<CeriumType>,
    pub value: RangeAnnotation<Expression>,
}

/// `struct name { attributes }`.
#[derive(Debug)]
pub struct Struct {
    pub name: RangeAnnotation<Qualifier>,
    pub attributes: Vec<(RangeAnnotation<Qualifier>, RangeAnnotation<CeriumType>)>,
}

/// An expression.
#[derive(Debug)]
pub enum Expression {
    Scope(Box<Scope>),
    TypeCast(Box<TypeCast>),
    TypeAlias(Box<TypeAlias>),
    UnsignedInteger(u16),
    SignedInteger(i16),
    Float(FloatLiteral),
    Boolean(bool),
    Nullptr,
    Variable(Qualifier),
    FieldAccess(Box<FieldAccess>),
    ArrayAccess(Box<ArrayAccess>),
    FunctionCall(Box<FunctionCall>),
    Assignment(Box<Assignment>),
    LogicalAnd(Box<LogicalAnd>),
    LogicalOr(Box<LogicalOr>),
    LessThan(Box<LessThan>),
    LessThanEquals(Box<LessThanEquals>),
    GreaterThan(Box<GreaterThan>),
    GreaterThanEquals(Box<GreaterThanEquals>),
    Equals(Box<Equals>),
    NotEquals(Box<NotEquals>),
    BitwiseOr(Box<BitwiseOr>),
    BitwiseXor(Box<BitwiseXor>),
    BitwiseAnd(Box<BitwiseAnd>),
    LeftShift(Box<LeftShift>),
    RightShift(Box<RightShift>),
    Addition(Box<Addition>),
    Subtraction(Box<Subtraction>),
    Multiplication(Box<Multiplication>),
    Division(Box<Division>),
    Borrow(Box<Borrow>),
    Negation(Box<Negation>),
    Deref(Box<Deref>),
    Iter(Box<Iter>),
    Inversion(Box<Inversion>),
    Let(Box<Let>),
    LetIn(Box<LetIn>),
    If(Box<If>),
    ForTo(Box<ForTo>),
    ForDownTo(Box<ForDownTo>),
    ForIn(Box<ForIn>),
    While(Box<While>),
    Loop(Box<Loop>),
}

/// `base.field`.
#[derive(Debug)]
pub struct FieldAccess {
    pub base: RangeAnnotation<Expression>,
    pub field: RangeAnnotation<Qualifier>,
}

/// `base[index]`.
#[derive(Debug)]
pub struct ArrayAccess {
    pub base: RangeAnnotation<Expression>,
    pub index: RangeAnnotation<Expression>,
}

/// `func(params..)`.
#[derive(Debug)]
pub struct FunctionCall {
    pub func: RangeAnnotation<Expression>,
    pub params: Vec<RangeAnnotation<Expression>>,
}

/// `{ instructions; ..; value }`: expressions ended by `;`, then an optional value.
#[derive(Debug)]
pub struct Scope {
    pub instructions: Vec<RangeAnnotation<Expression>>,
    pub value: Option<RangeAnnotation<Expression>>,
}

/// A conversion of a value to another type.
#[derive(Debug)]
pub struct TypeCast {
    pub value: RangeAnnotation<Expression>,
    pub target_type: RangeAnnotation<CeriumType>,
}

/// `value alias type`: the same value seen at another type.
#[derive(Debug)]
pub struct TypeAlias {
    pub value: RangeAnnotation<Expression>,
    pub target_type: RangeAnnotation<CeriumType>,
}

/// `target = value`.
#[derive(Debug)]
pub struct Assignment {
    pub target: RangeAnnotation<Expression>,
    pub value: RangeAnnotation<Expression>,
}

/// A binary operation.
#[derive(Debug)]
pub struct LogicalAnd {
    pub lhs: RangeAnnotation<Expression>,
    pub rhs: RangeAnnotation<Expression>,
}

/// A binary operation.
#[derive(Debug)]
pub struct LogicalOr {
    pub lhs: RangeAnnotation<Expression>,
    pub rhs: RangeAnnotation<Expression>,
}

/// A binary operation.
#[derive(Debug)]
pub struct LessThan {
    pub lhs: RangeAnnotation<Expression>,
    pub rhs: RangeAnnotation<Expression>,
}

/// A binary operation.
#[derive(Debug)]
pub struct LessThanEquals {
    pub lhs: RangeAnnotation<Expression>,
    pub rhs: RangeAnnotation<Expression>,
}

/// A binary operation.
#[derive(Debug)]
pub struct GreaterThan {
    pub lhs: RangeAnnotation<Expression>,
    pub rhs: RangeAnnotation<Expression>,
}

/// A binary operation.
#[derive(Debug)]
pub struct GreaterThanEquals {
    pub lhs: RangeAnnotation<Expression>,
    pub rhs: RangeAnnotation<Expression>,
}

/// A binary operation.
#[derive(Debug)]
pub struct Equals {
    pub lhs: RangeAnnotation<Expression>,
    pub rhs: RangeAnnotation<Expression>,
}

/// A binary operation.
#[derive(Debug)]
pub struct NotEquals {
    pub lhs: RangeAnnotation<Expression>,
    pub rhs: RangeAnnotation<Expression>,
}

/// A binary operation.
#[derive(Debug)]
pub struct BitwiseOr {
    pub lhs: RangeAnnotation<Expression>,
    pub rhs: RangeAnnotation<Expression>,
}

/// A binary operation.
#[derive(Debug)]
pub struct BitwiseXor {
    pub lhs: RangeAnnotation<Expression>,
    pub rhs: RangeAnnotation<Expression>,
}

/// A binary operation.
#[derive(Debug)]
pub struct BitwiseAnd {
    pub lhs: RangeAnnotation<Expression>,
    pub rhs: RangeAnnotation<Expression>,
}

/// A binary operation.
#[derive(Debug)]
pub struct LeftShift {
    pub lhs: RangeAnnotation<Expression>,
    pub rhs: RangeAnnotation<Expression>,
}

/// A binary operation.
#[derive(Debug)]
pub struct RightShift {
    pub lhs: RangeAnnotation<Expression>,
    pub rhs: RangeAnnotation<Expression>,
}

/// A binary operation.
#[derive(Debug)]
pub struct Addition {
    pub lhs: RangeAnnotation<Expression>,
    pub rhs: RangeAnnotation<Expression>,
}

/// A binary operation.
#[derive(Debug)]
pub struct Subtraction {
    pub lhs: RangeAnnotation<Expression>,
    pub rhs: RangeAnnotation<Expression>,
}

/// A binary operation.
#[derive(Debug)]
pub struct Multiplication {
    pub lhs: RangeAnnotation<Expression>,
    pub rhs: RangeAnnotation<Expression>,
}

/// A binary operation.
#[derive(Debug)]
pub struct Division {
    pub lhs: RangeAnnotation<Expression>,
    pub rhs: RangeAnnotation<Expression>,
}

/// A prefix operation.
#[derive(Debug)]
pub struct Borrow {
    pub inner: RangeAnnotation<Expression>,
}

/// A prefix operation.
#[derive(Debug)]
pub struct Negation {
    pub inner: RangeAnnotation<Expression>,
}

/// A prefix operation.
#[derive(Debug)]
pub struct Deref {
    pub inner: RangeAnnotation<Expression>,
}

/// A prefix operation.
#[derive(Debug)]
pub struct Iter {
    pub inner: RangeAnnotation<Expression>,
}

/// A prefix operation.
#[derive(Debug)]
pub struct Inversion {
    pub inner: RangeAnnotation<Expression>,
}

/// `let name = value`.
#[derive(Debug)]
pub struct Let {
    pub name: RangeAnnotation<Qualifier>,
    pub value: RangeAnnotation<Expression>,
}

/// `let name = value in body`.
#[derive(Debug)]
pub struct LetIn {
    pub name: RangeAnnotation<Qualifier>,
    pub value: RangeAnnotation<Expression>,
    pub body: RangeAnnotation<Expression>,
}

/// `if condition { .. } else { .. }`.
#[derive(Debug)]
pub struct If {
    pub condition: RangeAnnotation<Expression>,
    pub if_branch: RangeAnnotation<Expression>,
    pub else_branch: Option<RangeAnnotation<Expression>>,
}

/// `for var to limit { .. }`.
#[derive(Debug)]
pub struct ForTo {
    pub var: RangeAnnotation<Qualifier>,
    pub limit: RangeAnnotation<Expression>,
    pub body: RangeAnnotation<Expression>,
}

/// `for var downto limit { .. }`.
#[derive(Debug)]
pub struct ForDownTo {
    pub var: RangeAnnotation<Qualifier>,
    pub limit: RangeAnnotation<Expression>,
    pub body: RangeAnnotation<Expression>,
}

/// `for var in iterator { .. }`.
#[derive(Debug)]
pub struct ForIn {
    pub var: RangeAnnotation<Qualifier>,
    pub iterator: RangeAnnotation<Expression>,
    pub body: RangeAnnotation<Expression>,
}

/// `while condition { .. }`.
#[derive(Debug)]
pub struct While {
    pub condition: RangeAnnotation<Expression>,
    pub body: RangeAnnotation<Expression>,
}

/// `loop { .. }`.
#[derive(Debug)]
pub struct Loop {
    pub body: RangeAnnotation<Expression>,
}


/// The operators with two operands.
pub enum BinaryOp {
    Assignment,
    LogicalAnd,
    LogicalOr,
    LessThan,
    LessThanEquals,
    GreaterThan,
    GreaterThanEquals,
    Equals,
    NotEquals,
    BitwiseOr,
    BitwiseXor,
    BitwiseAnd,
    LeftShift,
    RightShift,
    Addition,
    Subtraction,
    Multiplication,
    Division,
}

/// The prefix operators.
pub enum UnaryOp {
    Borrow,
    Negation,
    Deref,
    Iter,
    Inversion,
}

/// An expression's mathematical value, with its source range.
pub type SpecNode = RangeAnnotation<SpecExpr>;

/// The mathematical value of an `Expression`.
pub enum SpecExpr {
    Scope(Seq<SpecNode>, Option<Box<SpecNode>>),
    TypeCast(Box<SpecNode>, RangeAnnotation<SpecType>),
    TypeAlias(Box<SpecNode>, RangeAnnotation<SpecType>),
    UnsignedInteger(u16),
    SignedInteger(i16),
    Float(SpecFloatLiteral),
    Boolean(bool),
    Nullptr,
    Variable(Seq<Seq<char>>),
    FieldAccess(Box<SpecNode>, RangeAnnotation<Seq<Seq<char>>>),
    ArrayAccess(Box<SpecNode>, Box<SpecNode>),
    FunctionCall(Box<SpecNode>, Seq<SpecNode>),
    Binary(BinaryOp, Box<SpecNode>, Box<SpecNode>),
    Unary(UnaryOp, Box<SpecNode>),
    Let(RangeAnnotation<Seq<Seq<char>>>, Box<SpecNode>),
    LetIn(RangeAnnotation<Seq<Seq<char>>>, Box<SpecNode>, Box<SpecNode>),
    If(Box<SpecNode>, Box<SpecNode>, Option<Box<SpecNode>>),
    ForTo(RangeAnnotation<Seq<Seq<char>>>, Box<SpecNode>, Box<SpecNode>),
    ForDownTo(RangeAnnotation<Seq<Seq<char>>>, Box<SpecNode>, Box<SpecNode>),
    ForIn(RangeAnnotation<Seq<Seq<char>>>, Box<SpecNode>, Box<SpecNode>),
    While(Box<SpecNode>, Box<SpecNode>),
    Loop(Box<SpecNode>),
}

/// The mathematical value of an annotated name.
pub open spec fn name_view(a: RangeAnnotation<Qualifier>) -> RangeAnnotation<Seq<Seq<char>>> {
    RangeAnnotation { range: a.range, inner: a.inner@ }
}

/// The mathematical value of an annotated type.
pub open spec fn type_annotation_view(a: RangeAnnotation<CeriumType>) -> RangeAnnotation<SpecType> {
    RangeAnnotation { range: a.range, inner: a.inner@ }
}

/// The mathematical value of an expression.
pub open spec fn expr_view(e: Expression) -> SpecExpr
    decreases e,
{
    match e {
        Expression::Scope(b) => SpecExpr::Scope(nodes_view(b.instructions@), match b.value { Some(v) => Some(Box::new(node_view(v))), None => None }),
        Expression::TypeCast(b) => SpecExpr::TypeCast(Box::new(node_view(b.value)), type_annotation_view(b.target_type)),
        Expression::TypeAlias(b) => SpecExpr::TypeAlias(Box::new(node_view(b.value)), type_annotation_view(b.target_type)),
        Expression::UnsignedInteger(v) => SpecExpr::UnsignedInteger(v),
        Expression::SignedInteger(v) => SpecExpr::SignedInteger(v),
        Expression::Float(f) => SpecExpr::Float(f@),
        Expression::Boolean(v) => SpecExpr::Boolean(v),
        Expression::Nullptr => SpecExpr::Nullptr,
        Expression::Variable(q) => SpecExpr::Variable(q@),
        Expression::FieldAccess(b) => SpecExpr::FieldAccess(Box::new(node_view(b.base)), name_view(b.field)),
        Expression::ArrayAccess(b) => SpecExpr::ArrayAccess(Box::new(node_view(b.base)), Box::new(node_view(b.index))),
        Expression::FunctionCall(b) => SpecExpr::FunctionCall(Box::new(node_view(b.func)), nodes_view(b.params@)),
        Expression::Assignment(b) => SpecExpr::Binary(BinaryOp::Assignment, Box::new(node_view(b.target)), Box::new(node_view(b.value))),
        Expression::LogicalAnd(b) => SpecExpr::Binary(BinaryOp::LogicalAnd, Box::new(node_view(b.lhs)), Box::new(node_view(b.rhs))),
        Expression::LogicalOr(b) => SpecExpr::Binary(BinaryOp::LogicalOr, Box::new(node_view(b.lhs)), Box::new(node_view(b.rhs))),
        Expression::LessThan(b) => SpecExpr::Binary(BinaryOp::LessThan, Box::new(node_view(b.lhs)), Box::new(node_view(b.rhs))),
        Expression::LessThanEquals(b) => SpecExpr::Binary(BinaryOp::LessThanEquals, Box::new(node_view(b.lhs)), Box::new(node_view(b.rhs))),
        Expression::GreaterThan(b) => SpecExpr::Binary(BinaryOp::GreaterThan, Box::new(node_view(b.lhs)), Box::new(node_view(b.rhs))),
        Expression::GreaterThanEquals(b) => SpecExpr::Binary(BinaryOp::GreaterThanEquals, Box::new(node_view(b.lhs)), Box::new(node_view(b.rhs))),
        Expression::Equals(b) => SpecExpr::Binary(BinaryOp::Equals, Box::new(node_view(b.lhs)), Box::new(node_view(b.rhs))),
        Expression::NotEquals(b) => SpecExpr::Binary(BinaryOp::NotEquals, Box::new(node_view(b.lhs)), Box::new(node_view(b.rhs))),
        Expression::BitwiseOr(b) => SpecExpr::Binary(BinaryOp::BitwiseOr, Box::new(node_view(b.lhs)), Box::new(node_view(b.rhs))),
        Expression::BitwiseXor(b) => SpecExpr::Binary(BinaryOp::BitwiseXor, Box::new(node_view(b.lhs)), Box::new(node_view(b.rhs))),
        Expression::BitwiseAnd(b) => SpecExpr::Binary(BinaryOp::BitwiseAnd, Box::new(node_view(b.lhs)), Box::new(node_view(b.rhs))),
        Expression::LeftShift(b) => SpecExpr::Binary(BinaryOp::LeftShift, Box::new(node_view(b.lhs)), Box::new(node_view(b.rhs))),
        Expression::RightShift(b) => SpecExpr::Binary(BinaryOp::RightShift, Box::new(node_view(b.lhs)), Box::new(node_view(b.rhs))),
        Expression::Addition(b) => SpecExpr::Binary(BinaryOp::Addition, Box::new(node_view(b.lhs)), Box::new(node_view(b.rhs))),
        Expression::Subtraction(b) => SpecExpr::Binary(BinaryOp::Subtraction, Box::new(node_view(b.lhs)), Box::new(node_view(b.rhs))),
        Expression::Multiplication(b) => SpecExpr::Binary(BinaryOp::Multiplication, Box::new(node_view(b.lhs)), Box::new(node_view(b.rhs))),
        Expression::Division(b) => SpecExpr::Binary(BinaryOp::Division, Box::new(node_view(b.lhs)), Box::new(node_view(b.rhs))),
        Expression::Borrow(b) => SpecExpr::Unary(UnaryOp::Borrow, Box::new(node_view(b.inner))),
        Expression::Negation(b) => SpecExpr::Unary(UnaryOp::Negation, Box::new(node_view(b.inner))),
        Expression::Deref(b) => SpecExpr::Unary(UnaryOp::Deref, Box::new(node_view(b.inner))),
        Expression::Iter(b) => SpecExpr::Unary(UnaryOp::Iter, Box::new(node_view(b.inner))),
        Expression::Inversion(b) => SpecExpr::Unary(UnaryOp::Inversion, Box::new(node_view(b.inner))),
        Expression::Let(b) => SpecExpr::Let(name_view(b.name), Box::new(node_view(b.value))),
        Expression::LetIn(b) => SpecExpr::LetIn(name_view(b.name), Box::new(node_view(b.value)), Box::new(node_view(b.body))),
        Expression::If(b) => SpecExpr::If(Box::new(node_view(b.condition)), Box::new(node_view(b.if_branch)), match b.else_branch { Some(e) => Some(Box::new(node_view(e))), None => None }),
        Expression::ForTo(b) => SpecExpr::ForTo(name_view(b.var), Box::new(node_view(b.limit)), Box::new(node_view(b.body))),
        Expression::ForDownTo(b) => SpecExpr::ForDownTo(name_view(b.var), Box::new(node_view(b.limit)), Box::new(node_view(b.body))),
        Expression::ForIn(b) => SpecExpr::ForIn(name_view(b.var), Box::new(node_view(b.iterator)), Box::new(node_view(b.body))),
        Expression::While(b) => SpecExpr::While(Box::new(node_view(b.condition)), Box::new(node_view(b.body))),
        Expression::Loop(b) => SpecExpr::Loop(Box::new(node_view(b.body))),
    }
}

/// The mathematical value of an annotated expression.
pub open spec fn node_view(a: RangeAnnotation<Expression>) -> SpecNode
    decreases a,
{
    RangeAnnotation { range: a.range, inner: expr_view(a.inner) }
}

/// The mathematical values of a sequence of annotated expressions.
pub open spec fn nodes_view(s: Seq<RangeAnnotation<Expression>>) -> Seq<SpecNode>
    decreases s,
{
    if s.len() == 0 {
        Seq::empty()
    } else {
        nodes_view(s.subrange(0, s.len() - 1)).push(node_view(s[s.len() - 1]))
    }
}

impl View for Expression {
    type V = SpecExpr;

    open spec fn view(&self) -> SpecExpr {
        expr_view(*self)
    }
}

/// The mathematical value of a `Definition`.
pub enum SpecDefinition {
    Function {
        name: RangeAnnotation<Seq<Seq<char>>>,
        parameters: Seq<(RangeAnnotation<Seq<Seq<char>>>, RangeAnnotation<SpecType>)>,
        return_type: Option<RangeAnnotation<SpecType>>,
        body: SpecNode,
    },
    Const {
        name: RangeAnnotation<Seq<Seq<char>>>,
        const_type: RangeAnnotation<SpecType>,
        value: SpecNode,
    },
    Struct {
        name: RangeAnnotation<Seq<Seq<char>>>,
        attributes: Seq<(RangeAnnotation<Seq<Seq<char>>>, RangeAnnotation<SpecType>)>,
    },
}

/// The mathematical values of typed names.
pub open spec fn fields_view(v: Seq<(RangeAnnotation<Qualifier>, RangeAnnotation<CeriumType>)>) -> Seq<
    (RangeAnnotation<Seq<Seq<char>>>, RangeAnnotation<SpecType>),
> {
    v.map_values(
        |p: (RangeAnnotation<Qualifier>, RangeAnnotation<CeriumType>)|
            (name_view(p.0), type_annotation_view(p.1)),
    )
}

impl View for Definition {
    type V = SpecDefinition;

    open spec fn view(&self) -> SpecDefinition {
        match self {
            Definition::Function(f) => SpecDefinition::Function {
                name: name_view(f.name),
                parameters: fields_view(f.parameters@),
                return_type: match f.return_type {
                    Some(t) => Some(type_annotation_view(t)),
                    None => None,
                },
                body: node_view(f.body),
            },
            Definition::Const(c) => SpecDefinition::Const {
                name: name_view(c.name),
                const_type: type_annotation_view(c.const_type),
                value: node_view(c.value),
            },
            Definition::Struct(st) => SpecDefinition::Struct {
                name: name_view(st.name),
                attributes: fields_view(st.attributes@),
            },
        }
    }
}

impl View for Program {
    type V = Seq<SpecDefinition>;

    open spec fn view(&self) -> Seq<SpecDefinition> {
        self.definitions@.map_values(|d: Definition| d@)
    }
}

/// The expression `lhs op rhs`.
pub fn make_binary(op: BinaryOp, lhs: RangeAnnotation<Expression>, rhs: RangeAnnotation<Expression>) -> (r: Expression)
    ensures
        r@ == SpecExpr::Binary(op, Box::new(lhs@), Box::new(rhs@)),
{
    match op {
        BinaryOp::Assignment => Expression::Assignment(Box::new(Assignment { target: lhs, value: rhs })),
        BinaryOp::LogicalAnd => Expression::LogicalAnd(Box::new(LogicalAnd { lhs, rhs })),
        BinaryOp::LogicalOr => Expression::LogicalOr(Box::new(LogicalOr { lhs, rhs })),
        BinaryOp::LessThan => Expression::LessThan(Box::new(LessThan { lhs, rhs })),
        BinaryOp::LessThanEquals => Expression::LessThanEquals(Box::new(LessThanEquals { lhs, rhs })),
        BinaryOp::GreaterThan => Expression::GreaterThan(Box::new(GreaterThan { lhs, rhs })),
        BinaryOp::GreaterThanEquals => Expression::GreaterThanEquals(Box::new(GreaterThanEquals { lhs, rhs })),
        BinaryOp::Equals => Expression::Equals(Box::new(Equals { lhs, rhs })),
        BinaryOp::NotEquals => Expression::NotEquals(Box::new(NotEquals { lhs, rhs })),
        BinaryOp::BitwiseOr => Expression::BitwiseOr(Box::new(BitwiseOr { lhs, rhs })),
        BinaryOp::BitwiseXor => Expression::BitwiseXor(Box::new(BitwiseXor { lhs, rhs })),
        BinaryOp::BitwiseAnd => Expression::BitwiseAnd(Box::new(BitwiseAnd { lhs, rhs })),
        BinaryOp::LeftShift => Expression::LeftShift(Box::new(LeftShift { lhs, rhs })),
        BinaryOp::RightShift => Expression::RightShift(Box::new(RightShift { lhs, rhs })),
        BinaryOp::Addition => Expression::Addition(Box::new(Addition { lhs, rhs })),
        BinaryOp::Subtraction => Expression::Subtraction(Box::new(Subtraction { lhs, rhs })),
        BinaryOp::Multiplication => Expression::Multiplication(Box::new(Multiplication { lhs, rhs })),
        BinaryOp::Division => Expression::Division(Box::new(Division { lhs, rhs })),
    }
}

/// The expression `op inner`.
pub fn make_unary(op: UnaryOp, inner: RangeAnnotation<Expression>) -> (r: Expression)
    ensures
        r@ == SpecExpr::Unary(op, Box::new(inner@)),
{
    match op {
        UnaryOp::Borrow => Expression::Borrow(Box::new(Borrow { inner })),
        UnaryOp::Negation => Expression::Negation(Box::new(Negation { inner })),
        UnaryOp::Deref => Expression::Deref(Box::new(Deref { inner })),
        UnaryOp::Iter => Expression::Iter(Box::new(Iter { inner })),
        UnaryOp::Inversion => Expression::Inversion(Box::new(Inversion { inner })),
    }
}

} // verus!
