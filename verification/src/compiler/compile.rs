//! Code generation for expressions: the code that computes a value, the code that
//! computes a value into a fresh slot that may then be changed, and the code of an
//! expression whose value is not used.
use crate::compiler::assembly::{
    instructions_view, Instruction, Operand, Register, SpecInstruction, SpecOperand, SpecRegister,
};
use crate::compiler::error::{option_type_view, InvalidDerefError, MismatchedAssignTypeError};
use crate::compiler::vars::{
    frame_fits, lookup, pushed, retyped_top, scope_begun, scope_ended, slot_operand, Vars, VarsModel,
};
use crate::error::{CompilerError, SpecCompilerError};
use crate::parser::ast::{
    name_view, node_view, nodes_view, type_annotation_view, Addition, Assignment, BinaryOp, Deref,
    Expression, Iter, Let, RangeAnnotation, Scope, SpecExpr, SpecNode, Subtraction, TypeAlias,
    UnaryOp,
};
use crate::parser::cerium_type::{CeriumType, SpecType};
use crate::text::{decimal, decimal_text};
use vstd::pervasive::unreached;
use vstd::prelude::*;
use vstd::string::*;

verus! {

/// Code that computes a value: the instructions, where the value ends up, and its type.
pub type ValueCode = (Seq<SpecInstruction>, SpecOperand, SpecType);

/// What compiling an expression whose value is not used gives.
pub enum UnitOutcome {
    /// The instructions, and the places afterwards.
    Done(Seq<SpecInstruction>, VarsModel),
    /// The error, and the places at the moment it was found.
    Failed(SpecCompilerError, VarsModel),
    /// The expression uses a construct that code generation does not handle.
    Unsupported,
}

/// The instruction that adds (`add`) or subtracts `rhs` to or from `lhs`, for the pairs of
/// operand types that allow it: two `u16`, two `i16`, two `f16` (with the float
/// instruction), or a pointer and a `u16`.
pub open spec fn arith_instruction(add: bool, lhs: SpecOperand, lhs_type: SpecType, rhs: SpecOperand, rhs_type: SpecType) -> Option<SpecInstruction> {
    match (lhs_type, rhs_type) {
        (SpecType::U16, SpecType::U16) | (SpecType::I16, SpecType::I16) | (SpecType::Pointer(_), SpecType::U16) =>
            Some(if add { SpecInstruction::Add(lhs, rhs) } else { SpecInstruction::Sub(lhs, rhs) }),
        (SpecType::F16, SpecType::F16) =>
            Some(if add { SpecInstruction::Fadd(lhs, rhs) } else { SpecInstruction::Fsub(lhs, rhs) }),
        _ => None,
    }
}

/// The text of a boolean constant operand.
pub open spec fn boolean_text(b: bool) -> Seq<char> {
    if b {
        "#true"@
    } else {
        "#false"@
    }
}

/// The code that computes the value of `e` in the places `m`, and the places afterwards;
/// `None` where `e` uses a construct that code generation does not handle.
/// - A `u16` constant or a boolean is a constant operand; a variable is where it lives.
/// - `value alias type` is the code of the value, seen at `type`.
/// - `lhs + rhs` and `lhs - rhs` compute `lhs` into a fresh slot, then `rhs` in a scope of
///   its own, and add or subtract it there (see `arith_instruction`).
/// - `*inner` computes `inner` in a scope of its own, then reads what it points to into
///   a fresh slot; `^inner` reads through the iterator `inner` into a fresh slot.
pub open spec fn value_code(m: VarsModel, e: SpecExpr) -> Option<(ValueCode, VarsModel)>
    decreases e, 1int,
{
    match e {
        SpecExpr::TypeAlias(value, target) => match value_code(m, value.inner) {
            Some(((code, op, _), m1)) => Some(((code, op, target.inner), m1)),
            None => None,
        },
        SpecExpr::UnsignedInteger(n) => Some(
            ((Seq::empty(), SpecOperand::Direct(SpecRegister::RN(decimal_text(n as nat))), SpecType::U16), m),
        ),
        SpecExpr::Boolean(b) => Some(
            ((Seq::empty(), SpecOperand::Direct(SpecRegister::RN(boolean_text(b))), SpecType::Bool), m),
        ),
        SpecExpr::Variable(name) => match lookup(m, name) {
            Some((op, t)) => Some(((Seq::empty(), op, t), m)),
            None => None,
        },
        SpecExpr::Binary(op, lhs, rhs) => {
            if op is Addition || op is Subtraction {
                match place_code(m, lhs.inner) {
                    Some(((lcode, lop, lt), m1)) => match value_code(scope_begun(m1), rhs.inner) {
                        Some(((rcode, rop, rt), m2)) => match arith_instruction(op is Addition, lop, lt, rop, rt) {
                            Some(i) => Some(((lcode + rcode + seq![i], lop, lt), scope_ended(m2))),
                            None => None,
                        },
                        None => None,
                    },
                    None => None,
                }
            } else {
                None
            }
        },
        SpecExpr::Unary(op, inner) => {
            if op is Deref {
                match value_code(scope_begun(m), inner.inner) {
                    Some(((code, iop, SpecType::Pointer(target)), m1)) => {
                        let m2 = scope_ended(m1);
                        let slot = slot_operand(m2.vars.len());
                        Some(((code.push(SpecInstruction::Read(slot, iop)), slot, *target), pushed(m2, (None, *target))))
                    },
                    _ => None,
                }
            } else if op is Iter {
                match value_code(m, inner.inner) {
                    Some(((code, iop, SpecType::Pointer(target)), m1)) => {
                        let slot = slot_operand(m1.vars.len());
                        Some(((code.push(SpecInstruction::Readitr(slot, iop)), slot, *target), pushed(m1, (None, *target))))
                    },
                    _ => None,
                }
            } else {
                None
            }
        },
        _ => None,
    }
}

/// The code that computes the value of `e` into a slot of its own that the caller may
/// change; `None` where code generation does not handle `e`. A `u16` constant or a
/// variable is copied into a fresh slot; `lhs + rhs` and `*inner` already leave their value in a fresh slot.
pub open spec fn place_code(m: VarsModel, e: SpecExpr) -> Option<(ValueCode, VarsModel)>
    decreases e, 2int,
{
    match e {
        SpecExpr::Variable(name) => match lookup(m, name) {
            Some((src, t)) => {
                let dst = slot_operand(m.vars.len());
                Some(((seq![SpecInstruction::Mov(dst, src)], dst, t), pushed(m, (None, t))))
            },
            None => None,
        },
        SpecExpr::UnsignedInteger(n) => {
            let dst = slot_operand(m.vars.len());
            let src = SpecOperand::Direct(SpecRegister::RN(decimal_text(n as nat)));
            Some(((seq![SpecInstruction::Mov(dst, src)], dst, SpecType::U16), pushed(m, (None, SpecType::U16))))
        },
        SpecExpr::Binary(BinaryOp::Addition, _, _) => value_code(m, e),
        SpecExpr::Unary(UnaryOp::Deref, _) => value_code(m, e),
        _ => None,
    }
}

/// The code of `e` when its value is not used.
/// - A scope compiles its expressions in order, in a scope of the places of its own.
/// - A `u16` constant or a known variable needs no code.
/// - `^target = value` computes the iterator `target` and then `value`, in a scope of its
///   own, and writes the value through the iterator; it fails when `target` is not a
///   pointer, or when `value` has another type than what `target` points to.
/// - `let name = value` takes a slot for `name`, computes `value` into it (see
///   `into_code`) in a scope of its own, and gives the slot the value's type.
/// - Any other expression is compiled as a value (see `value_code`) in a scope of its
///   own, and the value is dropped.
pub open spec fn unit_code(m: VarsModel, e: SpecExpr) -> UnitOutcome
    decreases e, 3int,
{
    match e {
        SpecExpr::Scope(items, value) => {
            match items_code(scope_begun(m), items) {
                UnitOutcome::Done(code, m1) => match value {
                    Some(v) => match unit_code(m1, v.inner) {
                        UnitOutcome::Done(vcode, m2) => UnitOutcome::Done(code + vcode, scope_ended(m2)),
                        UnitOutcome::Failed(err, m2) => UnitOutcome::Failed(err, m2),
                        UnitOutcome::Unsupported => UnitOutcome::Unsupported,
                    },
                    None => UnitOutcome::Done(code, scope_ended(m1)),
                },
                UnitOutcome::Failed(err, m1) => UnitOutcome::Failed(err, m1),
                UnitOutcome::Unsupported => UnitOutcome::Unsupported,
            }
        },
        SpecExpr::UnsignedInteger(_) => UnitOutcome::Done(Seq::empty(), m),
        SpecExpr::Variable(name) => if lookup(m, name) is Some {
            UnitOutcome::Done(Seq::empty(), m)
        } else {
            UnitOutcome::Unsupported
        },
        SpecExpr::Binary(BinaryOp::Assignment, target, value) => match target.inner {
            SpecExpr::Unary(UnaryOp::Iter, inner) => {
                match value_code(scope_begun(m), inner.inner) {
                    Some(((lcode, lop, lt), m1)) => match lt {
                        SpecType::Pointer(it) => match value_code(m1, value.inner) {
                            Some(((rcode, rop, rt), m2)) => if *it != rt {
                                UnitOutcome::Failed(
                                    SpecCompilerError::MismatchedAssignTypeError(inner.range, Some(*it), value.range, Some(rt)),
                                    m2,
                                )
                            } else {
                                UnitOutcome::Done(lcode + rcode + seq![SpecInstruction::Writeitr(lop, rop)], scope_ended(m2))
                            },
                            None => UnitOutcome::Unsupported,
                        },
                        _ => UnitOutcome::Failed(SpecCompilerError::InvalidDerefError(target.range, Some(lt)), m1),
                    },
                    None => UnitOutcome::Unsupported,
                }
            },
            _ => UnitOutcome::Unsupported,
        },
        SpecExpr::Let(name, value) => {
            let slot = slot_operand(m.vars.len());
            let m1 = pushed(m, (Some(name.inner), SpecType::Any));
            match into_code(scope_begun(m1), value.inner, slot) {
                Some(((code, Some(t)), m2)) => UnitOutcome::Done(code, retyped_top(scope_ended(m2), t)),
                _ => UnitOutcome::Unsupported,
            }
        },
        _ => match value_code(scope_begun(m), e) {
            Some(((code, _, _), m1)) => UnitOutcome::Done(code, scope_ended(m1)),
            None => UnitOutcome::Unsupported,
        },
    }
}

/// The code that computes the value of `e` into the operand `target`, with the value's
/// type (none for a value of unit type), and the places afterwards; `None` where code
/// generation does not handle `e`. A `u16` constant is moved into the target.
pub open spec fn into_code(m: VarsModel, e: SpecExpr, target: SpecOperand) -> Option<(
    (Seq<SpecInstruction>, Option<SpecType>),
    VarsModel,
)> {
    match e {
        SpecExpr::UnsignedInteger(n) => Some(
            (
                (
                    seq![SpecInstruction::Mov(target, SpecOperand::Direct(SpecRegister::RN(decimal_text(n as nat))))],
                    Some(SpecType::U16),
                ),
                m,
            ),
        ),
        _ => None,
    }
}

/// The code of a sequence of expressions whose values are not used, in order; it stops
/// at the first that fails.
pub open spec fn items_code(m: VarsModel, items: Seq<SpecNode>) -> UnitOutcome
    decreases items, 3int,
{
    if items.len() == 0 {
        UnitOutcome::Done(Seq::empty(), m)
    } else {
        match items_code(m, items.drop_last()) {
            UnitOutcome::Done(code, m1) => match unit_code(m1, items.last().inner) {
                UnitOutcome::Done(c, m2) => UnitOutcome::Done(code + c, m2),
                UnitOutcome::Failed(err, m2) => UnitOutcome::Failed(err, m2),
                UnitOutcome::Unsupported => UnitOutcome::Unsupported,
            },
            other => other,
        }
    }
}

/// The places `b` came from `a` by taking slots and by beginning and ending scopes in
/// pairs: `a`'s slots are still there, below any new ones, and the open scopes, the
/// globals and the parameters are the same.
pub open spec fn extends(a: VarsModel, b: VarsModel) -> bool {
    &&& a.vars.len() <= b.vars.len()
    &&& b.vars.subrange(0, a.vars.len() as int) == a.vars
    &&& b.scopes == a.scopes
    &&& b.globals == a.globals
    &&& b.parameters == a.parameters
}

proof fn lemma_extends_trans(a: VarsModel, b: VarsModel, c: VarsModel)
    requires
        extends(a, b),
        extends(b, c),
    ensures
        extends(a, c),
{
    assert(c.vars.subrange(0, a.vars.len() as int) =~= b.vars.subrange(0, a.vars.len() as int));
}

/// A scope begun in `a` and ended in `b`, where `b` extends the state right after the
/// beginning, gives back `a`'s slots and scopes.
proof fn lemma_scope_closes(a: VarsModel, b: VarsModel)
    requires
        extends(scope_begun(a), b),
    ensures
        scope_ended(b).vars == a.vars,
        scope_ended(b).scopes == a.scopes,
        scope_ended(b).globals == a.globals,
        scope_ended(b).parameters == a.parameters,
{
    assert(b.scopes.drop_last() =~= a.scopes);
}

proof fn lemma_value_extends(m: VarsModel, e: SpecExpr)
    ensures
        value_code(m, e) matches Some((_, m1)) ==> extends(m, m1),
    decreases e, 1int,
{
    assert(m.vars.subrange(0, m.vars.len() as int) =~= m.vars);
    match e {
        SpecExpr::TypeAlias(value, _) => {
            lemma_value_extends(m, value.inner);
        },
        SpecExpr::Binary(op, lhs, rhs) => {
            if op is Addition || op is Subtraction {
                lemma_place_extends(m, lhs.inner);
                if let Some((_, m1)) = place_code(m, lhs.inner) {
                    lemma_value_extends(scope_begun(m1), rhs.inner);
                    if let Some((_, m2)) = value_code(scope_begun(m1), rhs.inner) {
                        lemma_scope_closes(m1, m2);
                        let m3 = scope_ended(m2);
                        assert(extends(m1, m3)) by {
                            assert(m3.vars.subrange(0, m1.vars.len() as int) =~= m1.vars);
                        }
                        lemma_extends_trans(m, m1, m3);
                    }
                }
            }
        },
        SpecExpr::Unary(op, inner) => {
            if op is Deref {
                lemma_value_extends(scope_begun(m), inner.inner);
                if let Some((_, m1)) = value_code(scope_begun(m), inner.inner) {
                    lemma_scope_closes(m, m1);
                    if let Some((_, m3)) = value_code(m, e) {
                        assert(m3.vars.subrange(0, m.vars.len() as int) =~= m.vars);
                    }
                }
            } else if op is Iter {
                lemma_value_extends(m, inner.inner);
                if let Some((_, m1)) = value_code(m, inner.inner) {
                    if let Some((_, m3)) = value_code(m, e) {
                        assert(m3.vars.subrange(0, m.vars.len() as int) =~= m1.vars.subrange(0, m.vars.len() as int));
                    }
                }
            }
        },
        _ => {},
    }
}

proof fn lemma_place_extends(m: VarsModel, e: SpecExpr)
    ensures
        place_code(m, e) matches Some((_, m1)) ==> extends(m, m1),
    decreases e, 2int,
{
    match e {
        SpecExpr::Variable(_) | SpecExpr::UnsignedInteger(_) => {
            if let Some((_, m1)) = place_code(m, e) {
                assert(m1.vars.subrange(0, m.vars.len() as int) =~= m.vars);
            }
        },
        SpecExpr::Binary(BinaryOp::Addition, _, _) => {
            lemma_value_extends(m, e);
        },
        SpecExpr::Unary(UnaryOp::Deref, _) => {
            lemma_value_extends(m, e);
        },
        _ => {},
    }
}

proof fn lemma_unit_extends(m: VarsModel, e: SpecExpr)
    ensures
        unit_code(m, e) matches UnitOutcome::Done(_, m1) ==> extends(m, m1) && (!(e is Let) ==> m1.vars
            == m.vars),
    decreases e, 3int,
{
    assert(m.vars.subrange(0, m.vars.len() as int) =~= m.vars);
    match e {
        SpecExpr::Scope(items, value) => {
            lemma_items_extends(scope_begun(m), items);
            if let UnitOutcome::Done(_, m1) = items_code(scope_begun(m), items) {
                match value {
                    Some(v) => {
                        lemma_unit_extends(m1, v.inner);
                        if let UnitOutcome::Done(_, m2) = unit_code(m1, v.inner) {
                            lemma_extends_trans(scope_begun(m), m1, m2);
                            lemma_scope_closes(m, m2);
                        }
                    },
                    None => {
                        lemma_scope_closes(m, m1);
                    },
                }
            }
        },
        SpecExpr::UnsignedInteger(_) => {},
        SpecExpr::Variable(_) => {},
        SpecExpr::Binary(BinaryOp::Assignment, target, value) => {
            if let SpecExpr::Unary(UnaryOp::Iter, inner) = target.inner {
                lemma_value_extends(scope_begun(m), inner.inner);
                if let Some((_, m1)) = value_code(scope_begun(m), inner.inner) {
                    lemma_value_extends(m1, value.inner);
                    if let Some((_, m2)) = value_code(m1, value.inner) {
                        lemma_extends_trans(scope_begun(m), m1, m2);
                        lemma_scope_closes(m, m2);
                    }
                }
            }
        },
        SpecExpr::Let(name, value) => {
            let m1 = pushed(m, (Some(name.inner), SpecType::Any));
            if let UnitOutcome::Done(_, m3) = unit_code(m, e) {
                let m2 = scope_ended(scope_begun(m1));
                assert(scope_begun(m1).scopes.drop_last() =~= m1.scopes);
                assert(m2.vars =~= m1.vars);
                assert(m3.vars.subrange(0, m.vars.len() as int) =~= m.vars);
            }
        },
        _ => {
            lemma_value_extends(scope_begun(m), e);
            if let Some((_, m1)) = value_code(scope_begun(m), e) {
                lemma_scope_closes(m, m1);
            }
        },
    }
}

proof fn lemma_items_extends(m: VarsModel, items: Seq<SpecNode>)
    ensures
        items_code(m, items) matches UnitOutcome::Done(_, m1) ==> extends(m, m1),
    decreases items, 3int,
{
    assert(m.vars.subrange(0, m.vars.len() as int) =~= m.vars);
    if items.len() > 0 {
        lemma_items_extends(m, items.drop_last());
        if let UnitOutcome::Done(_, m1) = items_code(m, items.drop_last()) {
            lemma_unit_extends(m1, items.last().inner);
            if let UnitOutcome::Done(_, m2) = unit_code(m1, items.last().inner) {
                lemma_extends_trans(m, m1, m2);
            }
        }
    }
}

/// Compiling an expression whose value is not used, when it succeeds, keeps the slots in
/// use and the open scopes: every slot taken for a temporary is released again, and
/// only a `let` keeps one slot, for its name, above the slots in use.
pub proof fn law_unit_restores_places(m: VarsModel, e: SpecExpr)
    ensures
        unit_code(m, e) matches UnitOutcome::Done(_, m1) ==> extends(m, m1) && (!(e is Let) ==> m1.vars
            == m.vars),
{
    lemma_unit_extends(m, e);
}

/// Two states of the places with the same slots, globals and parameters (the open scopes
/// may differ).
pub open spec fn same_places(a: VarsModel, b: VarsModel) -> bool {
    a.vars == b.vars && a.globals == b.globals && a.parameters == b.parameters
}

proof fn lemma_value_same_places(m: VarsModel, n: VarsModel, e: SpecExpr)
    requires
        same_places(m, n),
    ensures
        (value_code(m, e) is Some) == (value_code(n, e) is Some),
        value_code(m, e) matches Some((c, m1)) ==> (value_code(n, e) matches Some((d, n1)) && c == d
            && same_places(m1, n1)),
    decreases e, 1int,
{
    match e {
        SpecExpr::TypeAlias(value, _) => {
            lemma_value_same_places(m, n, value.inner);
        },
        SpecExpr::Binary(op, lhs, rhs) => {
            if op is Addition || op is Subtraction {
                lemma_place_same_places(m, n, lhs.inner);
                if let Some((_, p1)) = place_code(m, lhs.inner) {
                    if let Some((_, q1)) = place_code(n, lhs.inner) {
                        lemma_value_same_places(scope_begun(p1), scope_begun(q1), rhs.inner);
                        lemma_value_extends(scope_begun(p1), rhs.inner);
                        lemma_value_extends(scope_begun(q1), rhs.inner);
                        if let Some((_, r1)) = value_code(scope_begun(p1), rhs.inner) {
                            if let Some((_, s1)) = value_code(scope_begun(q1), rhs.inner) {
                                assert(r1.scopes.last() == p1.vars.len());
                                assert(s1.scopes.last() == q1.vars.len());
                            }
                        }
                    }
                }
            }
        },
        SpecExpr::Unary(op, inner) => {
            if op is Deref {
                lemma_value_same_places(scope_begun(m), scope_begun(n), inner.inner);
                lemma_value_extends(scope_begun(m), inner.inner);
                lemma_value_extends(scope_begun(n), inner.inner);
                if let Some((_, r1)) = value_code(scope_begun(m), inner.inner) {
                    if let Some((_, s1)) = value_code(scope_begun(n), inner.inner) {
                        assert(r1.scopes.last() == m.vars.len());
                        assert(s1.scopes.last() == n.vars.len());
                    }
                }
            } else if op is Iter {
                lemma_value_same_places(m, n, inner.inner);
            }
        },
        _ => {},
    }
}

proof fn lemma_place_same_places(m: VarsModel, n: VarsModel, e: SpecExpr)
    requires
        same_places(m, n),
    ensures
        (place_code(m, e) is Some) == (place_code(n, e) is Some),
        place_code(m, e) matches Some((c, m1)) ==> (place_code(n, e) matches Some((d, n1)) && c == d
            && same_places(m1, n1)),
    decreases e, 2int,
{
    match e {
        SpecExpr::Binary(BinaryOp::Addition, _, _) => {
            lemma_value_same_places(m, n, e);
        },
        SpecExpr::Unary(UnaryOp::Deref, _) => {
            lemma_value_same_places(m, n, e);
        },
        _ => {},
    }
}

/// An expression whose value is not used gives the code that computes its value, when
/// that code exists; the value is dropped and the slots and scopes are left as they were.
pub proof fn law_unit_falls_back_to_value(m: VarsModel, e: SpecExpr)
    ensures
        value_code(m, e) matches Some(((code, _, _), _)) ==> (unit_code(m, e) matches UnitOutcome::Done(
            c,
            m1,
        ) && c == code && m1.vars == m.vars && m1.scopes == m.scopes),
{
    lemma_unit_extends(m, e);
    match e {
        SpecExpr::Scope(_, _) => {},
        SpecExpr::UnsignedInteger(_) => {},
        SpecExpr::Variable(_) => {},
        SpecExpr::Binary(BinaryOp::Assignment, _, _) => {},
        SpecExpr::Let(_, _) => {},
        _ => {
            lemma_value_same_places(m, scope_begun(m), e);
        },
    }
}

/// For an expression whose value can be compiled, the outcome of compiling it as a
/// value and the outcome of compiling it with its value unused, from the same places,
/// hold the same instructions: the value is dropped, and the slots and scopes are left
/// as they were.
pub proof fn law_unit_code_is_value_code(
    m: VarsModel,
    e: SpecExpr,
    value: Result<(Vec<Instruction>, Option<(Operand, CeriumType)>), CompilerError>,
    value_after: VarsModel,
    unit: Result<Vec<Instruction>, CompilerError>,
    unit_after: VarsModel,
)
    requires
        value_result(value, value_code(m, e), value_after),
        unit_result(unit, unit_code(m, e), unit_after),
    ensures
        value matches Ok((vcode, _)) && unit matches Ok(ucode) && instructions_view(vcode@)
            == instructions_view(ucode@),
        unit_after.vars == m.vars && unit_after.scopes == m.scopes,
{
    law_unit_falls_back_to_value(m, e);
}

/// `lhs - rhs` ends with a subtraction from the slot that holds the result (`sub`, or
/// `fsub` for `f16` operands), and `lhs + rhs` ends with an addition to it (`add`, or
/// `fadd` for `f16` operands): the operation written is the one performed.
pub proof fn law_arith_ends_with_its_operation(m: VarsModel, lhs: SpecNode, rhs: SpecNode)
    ensures
        value_code(m, SpecExpr::Binary(BinaryOp::Subtraction, Box::new(lhs), Box::new(rhs)))
            matches Some(((code, op, t), _)) ==> code.len() > 0 && (if t is F16 {
            code.last() matches SpecInstruction::Fsub(a, _) && a == op
        } else {
            code.last() matches SpecInstruction::Sub(a, _) && a == op
        }),
        value_code(m, SpecExpr::Binary(BinaryOp::Addition, Box::new(lhs), Box::new(rhs)))
            matches Some(((code, op, t), _)) ==> code.len() > 0 && (if t is F16 {
            code.last() matches SpecInstruction::Fadd(a, _) && a == op
        } else {
            code.last() matches SpecInstruction::Add(a, _) && a == op
        }),
{
}

/// The code of a sequence of expressions whose values are not used is the code of its
/// first part followed by the code of the rest, compiled from where the first part
/// leaves the places: statements run in the order they are written.
pub proof fn law_items_code_concat(m: VarsModel, a: Seq<SpecNode>, b: Seq<SpecNode>)
    ensures
        items_code(m, a) matches UnitOutcome::Done(c1, m1) ==> (items_code(m1, b) matches UnitOutcome::Done(c2, m2)
            ==> items_code(m, a + b) == UnitOutcome::Done(c1 + c2, m2)),
    decreases b.len(),
{
    if b.len() == 0 {
        assert(a + b =~= a);
        if let UnitOutcome::Done(c1, m1) = items_code(m, a) {
            assert(c1 + Seq::<SpecInstruction>::empty() =~= c1);
        }
    } else {
        let b0 = b.drop_last();
        law_items_code_concat(m, a, b0);
        assert((a + b).drop_last() =~= a + b0);
        assert((a + b).last() == b.last());
        if let UnitOutcome::Done(c1, m1) = items_code(m, a) {
            if let UnitOutcome::Done(c2, m2) = items_code(m1, b) {
                if let UnitOutcome::Done(c0, m0) = items_code(m1, b0) {
                    if let UnitOutcome::Done(cx, mx) = unit_code(m0, b.last().inner) {
                        assert(c1 + c0 + cx =~= c1 + (c0 + cx));
                    }
                }
            }
        }
    }
}

/// The final expression of a scope, whose value is the scope's, is compiled after the
/// scope's statements, as one more statement would be: the code of `{ s1; ...; sn; v }`
/// is the code of the statements `s1`, ..., `sn`, `v` in that order.
pub proof fn law_scope_value_comes_last(m: VarsModel, items: Seq<SpecNode>, v: SpecNode)
    ensures
        unit_code(m, SpecExpr::Scope(items, Some(Box::new(v)))) matches UnitOutcome::Done(c, _)
            ==> (items_code(scope_begun(m), items.push(v)) matches UnitOutcome::Done(d, _) && c == d),
{
    let all = items.push(v);
    assert(all.drop_last() =~= items);
    assert(all.last() == v);
}

/// Compiling a value, when it succeeds, keeps the slots in use below any it takes, and
/// leaves the scopes as they were.
pub proof fn law_value_keeps_places(m: VarsModel, e: SpecExpr)
    ensures
        value_code(m, e) matches Some((_, m1)) ==> extends(m, m1),
{
    lemma_value_extends(m, e);
}

/// `r` is the outcome of compiling a value whose expected code is `expected`, with the
/// places `after` afterwards.
pub open spec fn value_result(
    r: Result<(Vec<Instruction>, Option<(Operand, CeriumType)>), CompilerError>,
    expected: Option<(ValueCode, VarsModel)>,
    after: VarsModel,
) -> bool {
    match r {
        Ok((code, Some((op, t)))) => expected == Some(((instructions_view(code@), op@, t@), after)),
        _ => false,
    }
}

/// `r` is the outcome `expected` of compiling an expression whose value is not used,
/// with the places `after` afterwards.
pub open spec fn unit_result(r: Result<Vec<Instruction>, CompilerError>, expected: UnitOutcome, after: VarsModel) -> bool {
    match (r, expected) {
        (Ok(code), UnitOutcome::Done(c, m)) => instructions_view(code@) == c && m == after,
        (Err(e), UnitOutcome::Failed(se, m)) => e@ == se && m == after,
        _ => false,
    }
}

/// The mathematical value of the binary operation `lhs op rhs`.
pub open spec fn binary_expr(op: BinaryOp, lhs: RangeAnnotation<Expression>, rhs: RangeAnnotation<Expression>) -> SpecExpr {
    SpecExpr::Binary(op, Box::new(node_view(lhs)), Box::new(node_view(rhs)))
}

/// The mathematical value of the prefix operation `op inner`.
pub open spec fn unary_expr(op: UnaryOp, inner: RangeAnnotation<Expression>) -> SpecExpr {
    SpecExpr::Unary(op, Box::new(node_view(inner)))
}

proof fn lemma_instructions_append(a: Seq<Instruction>, b: Seq<Instruction>)
    ensures
        instructions_view(a + b) == instructions_view(a) + instructions_view(b),
{
    assert(instructions_view(a + b) =~= instructions_view(a) + instructions_view(b));
}

proof fn lemma_instructions_push(a: Seq<Instruction>, i: Instruction)
    ensures
        instructions_view(a.push(i)) == instructions_view(a).push(i@),
{
    assert(instructions_view(a.push(i)) =~= instructions_view(a).push(i@));
}

impl Expression {
    /// The code that computes the value of this expression (see `value_code`).
    pub fn compile(self, vars: &mut Vars) -> (r: Result<(Vec<Instruction>, Option<(Operand, CeriumType)>), CompilerError>)
        requires
            frame_fits(old(vars)@),
            value_code(old(vars)@, self@) is Some,
        ensures
            final(vars)@.parameters == old(vars)@.parameters,
            value_result(r, value_code(old(vars)@, self@), final(vars)@),
        decreases self, 1int,
    {
        match self {
            Expression::TypeAlias(alias) => (*alias).compile(vars),
            Expression::UnsignedInteger(n) => {
                let code: Vec<Instruction> = Vec::new();
                assert(instructions_view(code@) =~= Seq::empty());
                Ok((code, Some((Operand::Direct(Register::RN(decimal(n as usize))), CeriumType::U16))))
            },
            Expression::Boolean(b) => {
                let code: Vec<Instruction> = Vec::new();
                assert(instructions_view(code@) =~= Seq::empty());
                let text = if b {
                    String::from_str("#true")
                } else {
                    String::from_str("#false")
                };
                proof {
                    reveal_strlit("#true");
                    reveal_strlit("#false");
                }
                Ok((code, Some((Operand::Direct(Register::RN(text)), CeriumType::Bool))))
            },
            Expression::Variable(name) => {
                let found = vars.find(&name);
                match found {
                    Some((op, t)) => {
                        let t = t.duplicate();
                        let code: Vec<Instruction> = Vec::new();
                        assert(instructions_view(code@) =~= Seq::empty());
                        Ok((code, Some((op, t))))
                    },
                    None => unreached(),
                }
            },
            Expression::Addition(add) => (*add).compile(vars),
            Expression::Subtraction(sub) => (*sub).compile(vars),
            Expression::Deref(deref) => (*deref).compile(vars),
            Expression::Iter(iter) => (*iter).compile(vars),
            _ => unreached(),
        }
    }

    /// The code that computes the value of this expression into a slot of its own
    /// (see `place_code`).
    pub fn compile_mut(self, vars: &mut Vars) -> (r: Result<(Vec<Instruction>, Option<(Operand, CeriumType)>), CompilerError>)
        requires
            frame_fits(old(vars)@),
            place_code(old(vars)@, self@) is Some,
        ensures
            final(vars)@.parameters == old(vars)@.parameters,
            value_result(r, place_code(old(vars)@, self@), final(vars)@),
        decreases self, 2int,
    {
        match self {
            Expression::UnsignedInteger(n) => {
                let dst_op = vars.push(None, CeriumType::U16);
                let mut code: Vec<Instruction> = Vec::new();
                code.push(Instruction::Mov(dst_op.duplicate(), Operand::Direct(Register::RN(decimal(n as usize)))));
                assert(instructions_view(code@) =~= seq![code@[0]@]);
                Ok((code, Some((dst_op, CeriumType::U16))))
            },
            Expression::Variable(name) => {
                let found = vars.find(&name);
                let (src_op, c_type) = match found {
                    Some((op, t)) => (op, t.duplicate()),
                    None => unreached(),
                };
                let result_type = c_type.duplicate();
                let dst_op = vars.push(None, c_type);
                let mut code: Vec<Instruction> = Vec::new();
                code.push(Instruction::Mov(dst_op.duplicate(), src_op));
                assert(instructions_view(code@) =~= seq![code@[0]@]);
                Ok((code, Some((dst_op, result_type))))
            },
            Expression::Addition(add) => (*add).compile_mut(vars),
            Expression::Deref(deref) => (*deref).compile_mut(vars),
            _ => unreached(),
        }
    }

    /// The code of this expression when its value is not used (see `unit_code`).
    pub fn compile_unit(self, vars: &mut Vars) -> (r: Result<Vec<Instruction>, CompilerError>)
        requires
            frame_fits(old(vars)@),
            !(unit_code(old(vars)@, self@) is Unsupported),
        ensures
            final(vars)@.parameters == old(vars)@.parameters,
            unit_result(r, unit_code(old(vars)@, self@), final(vars)@),
        decreases self, 3int,
    {
        let ghost e = self@;
        match self {
            Expression::Scope(scope) => (*scope).compile_unit(vars),
            Expression::UnsignedInteger(_) => {
                let code: Vec<Instruction> = Vec::new();
                assert(instructions_view(code@) =~= Seq::empty());
                Ok(code)
            },
            Expression::Variable(name) => {
                let found = vars.find(&name);
                match found {
                    Some(_) => {
                        let code: Vec<Instruction> = Vec::new();
                        assert(instructions_view(code@) =~= Seq::empty());
                        Ok(code)
                    },
                    None => unreached(),
                }
            },
            Expression::Assignment(assign) => (*assign).compile_unit(vars),
            Expression::Let(decl) => (*decl).compile_unit(vars),
            other => {
                assert(other@ == e);
                vars.begin_scope();
                let (code, _) = match other.compile(vars) {
                    Ok(x) => x,
                    Err(_) => unreached(),
                };
                vars.end_scope();
                Ok(code)
            },
        }
    }

    /// The code that computes the value of this expression into `target` (see
    /// `into_code`).
    pub fn compile_into(self, vars: &mut Vars, target: Operand) -> (r: Result<(Vec<Instruction>, Option<CeriumType>), CompilerError>)
        requires
            into_code(old(vars)@, self@, target@) is Some,
        ensures
            final(vars)@ == old(vars)@,
            match r {
                Ok((code, t)) => into_code(old(vars)@, self@, target@) == Some(
                    ((instructions_view(code@), option_type_view(t)), final(vars)@),
                ),
                Err(_) => false,
            },
    {
        match self {
            Expression::UnsignedInteger(n) => {
                let mut code: Vec<Instruction> = Vec::new();
                code.push(Instruction::Mov(target, Operand::Direct(Register::RN(decimal(n as usize)))));
                assert(instructions_view(code@) =~= seq![code@[0]@]);
                Ok((code, Some(CeriumType::U16)))
            },
            _ => unreached(),
        }
    }
}

impl Let {
    /// The code of `let name = value`: takes a slot for `name`, computes the value into
    /// it in a scope of its own, and gives the slot the value's type.
    pub fn compile_unit(self, vars: &mut Vars) -> (r: Result<Vec<Instruction>, CompilerError>)
        requires
            frame_fits(old(vars)@),
            !(unit_code(old(vars)@, SpecExpr::Let(name_view(self.name), Box::new(node_view(self.value)))) is Unsupported),
        ensures
            final(vars)@.parameters == old(vars)@.parameters,
            unit_result(r, unit_code(old(vars)@, SpecExpr::Let(name_view(self.name), Box::new(node_view(self.value)))), final(vars)@),
    {
        let Let { name, value } = self;
        let addr = vars.push(Some(name.inner), CeriumType::Any);
        vars.begin_scope();
        let (code, c_type) = match value.inner.compile_into(vars, addr) {
            Ok(x) => x,
            Err(_) => unreached(),
        };
        vars.end_scope();
        let t = match c_type {
            Some(t) => t,
            None => unreached(),
        };
        vars.alter_top_type(t);
        Ok(code)
    }
}

impl TypeAlias {
    /// The code of the value, seen at the target type.
    pub fn compile(self, vars: &mut Vars) -> (r: Result<(Vec<Instruction>, Option<(Operand, CeriumType)>), CompilerError>)
        requires
            frame_fits(old(vars)@),
            value_code(old(vars)@, SpecExpr::TypeAlias(Box::new(node_view(self.value)), type_annotation_view(self.target_type))) is Some,
        ensures
            final(vars)@.parameters == old(vars)@.parameters,
            value_result(
                r,
                value_code(old(vars)@, SpecExpr::TypeAlias(Box::new(node_view(self.value)), type_annotation_view(self.target_type))),
                final(vars)@,
            ),
        decreases self, 0int,
    {
        let TypeAlias { value, target_type } = self;
        let (code, result) = match value.inner.compile(vars) {
            Ok(x) => x,
            Err(_) => unreached(),
        };
        match result {
            Some((op, _)) => Ok((code, Some((op, target_type.inner)))),
            None => unreached(),
        }
    }
}

impl Addition {
    /// The code that adds the right operand to the left one, computed into a slot of its
    /// own; the result is in that slot.
    pub fn compile(self, vars: &mut Vars) -> (r: Result<(Vec<Instruction>, Option<(Operand, CeriumType)>), CompilerError>)
        requires
            frame_fits(old(vars)@),
            value_code(old(vars)@, binary_expr(BinaryOp::Addition, self.lhs, self.rhs)) is Some,
        ensures
            final(vars)@.parameters == old(vars)@.parameters,
            value_result(r, value_code(old(vars)@, binary_expr(BinaryOp::Addition, self.lhs, self.rhs)), final(vars)@),
        decreases self, 0int,
    {
        let Addition { lhs, rhs } = self;
        let (mut result_asm, lhs_value) = match lhs.inner.compile_mut(vars) {
            Ok(x) => x,
            Err(_) => unreached(),
        };
        let (lhs_op, lhs_type) = match lhs_value {
            Some(v) => v,
            None => unreached(),
        };
        vars.begin_scope();
        let (mut rhs_asm, rhs_value) = match rhs.inner.compile(vars) {
            Ok(x) => x,
            Err(_) => unreached(),
        };
        let (rhs_op, rhs_type) = match rhs_value {
            Some(v) => v,
            None => unreached(),
        };
        vars.end_scope();
        let final_inst = match (&lhs_type, &rhs_type) {
            (CeriumType::U16, CeriumType::U16) => Instruction::Add(lhs_op.duplicate(), rhs_op),
            (CeriumType::I16, CeriumType::I16) => Instruction::Add(lhs_op.duplicate(), rhs_op),
            (CeriumType::F16, CeriumType::F16) => Instruction::Fadd(lhs_op.duplicate(), rhs_op),
            (CeriumType::Pointer(_), CeriumType::U16) => Instruction::Add(lhs_op.duplicate(), rhs_op),
            _ => unreached(),
        };
        let ghost l = result_asm@;
        let ghost r = rhs_asm@;
        result_asm.append(&mut rhs_asm);
        result_asm.push(final_inst);
        proof {
            lemma_instructions_append(l, r);
            lemma_instructions_push(l + r, final_inst);
            assert(instructions_view(result_asm@) =~= instructions_view(l) + instructions_view(r) + seq![final_inst@]);
        }
        Ok((result_asm, Some((lhs_op, lhs_type))))
    }

    /// The same as `compile`: the result is already in a slot of its own.
    pub fn compile_mut(self, vars: &mut Vars) -> (r: Result<(Vec<Instruction>, Option<(Operand, CeriumType)>), CompilerError>)
        requires
            frame_fits(old(vars)@),
            value_code(old(vars)@, binary_expr(BinaryOp::Addition, self.lhs, self.rhs)) is Some,
        ensures
            final(vars)@.parameters == old(vars)@.parameters,
            value_result(r, value_code(old(vars)@, binary_expr(BinaryOp::Addition, self.lhs, self.rhs)), final(vars)@),
        decreases self, 1int,
    {
        self.compile(vars)
    }
}

impl Subtraction {
    /// The code that subtracts the right operand from the left one, computed into a slot
    /// of its own; the result is in that slot.
    pub fn compile(self, vars: &mut Vars) -> (r: Result<(Vec<Instruction>, Option<(Operand, CeriumType)>), CompilerError>)
        requires
            frame_fits(old(vars)@),
            value_code(old(vars)@, binary_expr(BinaryOp::Subtraction, self.lhs, self.rhs)) is Some,
        ensures
            final(vars)@.parameters == old(vars)@.parameters,
            value_result(r, value_code(old(vars)@, binary_expr(BinaryOp::Subtraction, self.lhs, self.rhs)), final(vars)@),
        decreases self, 0int,
    {
        let Subtraction { lhs, rhs } = self;
        let (mut result_asm, lhs_value) = match lhs.inner.compile_mut(vars) {
            Ok(x) => x,
            Err(_) => unreached(),
        };
        let (lhs_op, lhs_type) = match lhs_value {
            Some(v) => v,
            None => unreached(),
        };
        vars.begin_scope();
        let (mut rhs_asm, rhs_value) = match rhs.inner.compile(vars) {
            Ok(x) => x,
            Err(_) => unreached(),
        };
        let (rhs_op, rhs_type) = match rhs_value {
            Some(v) => v,
            None => unreached(),
        };
        vars.end_scope();
        let final_inst = match (&lhs_type, &rhs_type) {
            (CeriumType::U16, CeriumType::U16) => Instruction::Sub(lhs_op.duplicate(), rhs_op),
            (CeriumType::I16, CeriumType::I16) => Instruction::Sub(lhs_op.duplicate(), rhs_op),
            (CeriumType::F16, CeriumType::F16) => Instruction::Fsub(lhs_op.duplicate(), rhs_op),
            (CeriumType::Pointer(_), CeriumType::U16) => Instruction::Sub(lhs_op.duplicate(), rhs_op),
            _ => unreached(),
        };
        let ghost l = result_asm@;
        let ghost r = rhs_asm@;
        result_asm.append(&mut rhs_asm);
        result_asm.push(final_inst);
        proof {
            lemma_instructions_append(l, r);
            lemma_instructions_push(l + r, final_inst);
            assert(instructions_view(result_asm@) =~= instructions_view(l) + instructions_view(r) + seq![final_inst@]);
        }
        Ok((result_asm, Some((lhs_op, lhs_type))))
    }
}

impl Deref {
    /// The same as `compile_mut`: the value read is in a slot of its own.
    pub fn compile(self, vars: &mut Vars) -> (r: Result<(Vec<Instruction>, Option<(Operand, CeriumType)>), CompilerError>)
        requires
            frame_fits(old(vars)@),
            value_code(old(vars)@, unary_expr(UnaryOp::Deref, self.inner)) is Some,
        ensures
            final(vars)@.parameters == old(vars)@.parameters,
            value_result(r, value_code(old(vars)@, unary_expr(UnaryOp::Deref, self.inner)), final(vars)@),
        decreases self, 1int,
    {
        self.compile_mut(vars)
    }

    /// The code that computes the pointer in a scope of its own and reads what it points
    /// to into a fresh slot.
    pub fn compile_mut(self, vars: &mut Vars) -> (r: Result<(Vec<Instruction>, Option<(Operand, CeriumType)>), CompilerError>)
        requires
            frame_fits(old(vars)@),
            value_code(old(vars)@, unary_expr(UnaryOp::Deref, self.inner)) is Some,
        ensures
            final(vars)@.parameters == old(vars)@.parameters,
            value_result(r, value_code(old(vars)@, unary_expr(UnaryOp::Deref, self.inner)), final(vars)@),
        decreases self, 0int,
    {
        vars.begin_scope();
        let (mut code, value) = match self.inner.inner.compile(vars) {
            Ok(x) => x,
            Err(_) => unreached(),
        };
        let (op, c_type) = match value {
            Some(v) => v,
            None => unreached(),
        };
        let inner_type = match c_type {
            CeriumType::Pointer(inner) => *inner,
            _ => unreached(),
        };
        vars.end_scope();
        let addr = vars.push(None, inner_type.duplicate());
        let ghost before = code@;
        code.push(Instruction::Read(addr.duplicate(), op));
        proof {
            lemma_instructions_push(before, code@.last());
            assert(code@ == before.push(code@.last()));
        }
        Ok((code, Some((addr, inner_type))))
    }
}

impl Iter {
    /// The code that computes the iterator and reads through it into a fresh slot.
    pub fn compile(self, vars: &mut Vars) -> (r: Result<(Vec<Instruction>, Option<(Operand, CeriumType)>), CompilerError>)
        requires
            frame_fits(old(vars)@),
            value_code(old(vars)@, unary_expr(UnaryOp::Iter, self.inner)) is Some,
        ensures
            final(vars)@.parameters == old(vars)@.parameters,
            value_result(r, value_code(old(vars)@, unary_expr(UnaryOp::Iter, self.inner)), final(vars)@),
        decreases self, 0int,
    {
        let (mut code, value) = match self.inner.inner.compile(vars) {
            Ok(x) => x,
            Err(_) => unreached(),
        };
        let (op, outer_type) = match value {
            Some(v) => v,
            None => unreached(),
        };
        let inner_type = match outer_type {
            CeriumType::Pointer(inner) => *inner,
            _ => unreached(),
        };
        let target_op = vars.push(None, inner_type.duplicate());
        let ghost before = code@;
        code.push(Instruction::Readitr(target_op.duplicate(), op));
        proof {
            lemma_instructions_push(before, code@.last());
            assert(code@ == before.push(code@.last()));
        }
        Ok((code, Some((target_op, inner_type))))
    }
}

/// The mathematical value of a scope.
pub open spec fn scope_expr(s: Scope) -> SpecExpr {
    SpecExpr::Scope(
        nodes_view(s.instructions@),
        match s.value {
            Some(v) => Some(Box::new(node_view(v))),
            None => None,
        },
    )
}

proof fn lemma_nodes_view_index(v: Seq<RangeAnnotation<Expression>>)
    ensures
        nodes_view(v).len() == v.len(),
        forall|i: int| 0 <= i < v.len() ==> #[trigger] nodes_view(v)[i] == node_view(v[i]),
    decreases v.len(),
{
    if v.len() > 0 {
        lemma_nodes_view_index(v.subrange(0, v.len() - 1));
    }
}

/// Once a prefix of the expressions fails or is not handled, so is the whole sequence,
/// with the same outcome.
proof fn lemma_items_prefix_stops(m: VarsModel, s: Seq<SpecNode>, j: int)
    requires
        0 <= j <= s.len(),
        !(items_code(m, s.subrange(0, j)) is Done),
    ensures
        items_code(m, s) == items_code(m, s.subrange(0, j)),
    decreases s.len(),
{
    if j == s.len() {
        assert(s.subrange(0, j) =~= s);
    } else {
        assert(s.drop_last().subrange(0, j) =~= s.subrange(0, j));
        lemma_items_prefix_stops(m, s.drop_last(), j);
    }
}

impl Scope {
    /// The code of the expressions of the scope, in order, in a scope of the places of
    /// its own.
    pub fn compile_unit(self, vars: &mut Vars) -> (r: Result<Vec<Instruction>, CompilerError>)
        requires
            frame_fits(old(vars)@),
            !(unit_code(old(vars)@, scope_expr(self)) is Unsupported),
        ensures
            final(vars)@.parameters == old(vars)@.parameters,
            unit_result(r, unit_code(old(vars)@, scope_expr(self)), final(vars)@),
        decreases self, 0int,
    {
        let ghost whole = self;
        let ghost items = nodes_view(self.instructions@);
        proof {
            lemma_nodes_view_index(self.instructions@);
        }
        let Scope { instructions, value } = self;
        let mut result: Vec<Instruction> = Vec::new();
        vars.begin_scope();
        let ghost start = vars@;
        let mut rest = instructions;
        let ghost all = rest@;
        let ghost mut i: int = 0;
        assert(items.subrange(0, 0) =~= Seq::<SpecNode>::empty());
        assert(instructions_view(result@) =~= Seq::empty());
        while rest.len() > 0
            invariant
                whole == self,
                all == whole.instructions@,
                items == nodes_view(all),
                items.len() == all.len(),
                forall|k: int| 0 <= k < all.len() ==> #[trigger] items[k] == node_view(all[k]),
                0 <= i <= all.len(),
                rest@ == all.subrange(i, all.len() as int),
                frame_fits(vars@),
                vars@.parameters == old(vars)@.parameters,
                start == scope_begun(old(vars)@),
                items_code(start, items.subrange(0, i)) == UnitOutcome::Done(instructions_view(result@), vars@),
                !(unit_code(old(vars)@, scope_expr(whole)) is Unsupported),
            decreases rest@.len(),
        {
            let item = rest.remove(0);
            assert(item == all[i]);
            let ghost before = vars@;
            let ghost prefix = items.subrange(0, i + 1);
            assert(prefix.drop_last() =~= items.subrange(0, i));
            assert(prefix.last() == items[i]);
            proof {
                if unit_code(before, item.inner@) is Unsupported {
                    lemma_items_prefix_stops(start, items, i + 1);
                }
                assert(decreases_to!(whole => whole.instructions));
                assert(decreases_to!(whole.instructions => whole.instructions@));
                assert(decreases_to!(whole.instructions@ => whole.instructions@[i]));
                assert(decreases_to!(whole.instructions@[i] => whole.instructions@[i].inner));
            }
            let code = item.inner.compile_unit(vars);
            match code {
                Ok(c) => {
                    let ghost done = result@;
                    let mut c = c;
                    let ghost added = c@;
                    result.append(&mut c);
                    proof {
                        lemma_instructions_append(done, added);
                    }
                },
                Err(e) => {
                    proof {
                        lemma_items_prefix_stops(start, items, i + 1);
                    }
                    return Err(e);
                },
            }
            proof {
                i = i + 1;
                assert(rest@ =~= all.subrange(i, all.len() as int));
            }
        }
        assert(items.subrange(0, i) =~= items);
        match value {
            Some(v) => {
                proof {
                    assert(decreases_to!(whole => whole.value));
                }
                let code = v.inner.compile_unit(vars);
                match code {
                    Ok(c) => {
                        let ghost done = result@;
                        let mut c = c;
                        let ghost added = c@;
                        result.append(&mut c);
                        proof {
                            lemma_instructions_append(done, added);
                        }
                        vars.end_scope();
                        Ok(result)
                    },
                    Err(e) => Err(e),
                }
            },
            None => {
                vars.end_scope();
                Ok(result)
            },
        }
    }
}

impl Assignment {
    /// The code of `^target = value`: computes the iterator and the value in a scope of
    /// their own and writes the value through the iterator. Other targets are not handled.
    pub fn compile_unit(self, vars: &mut Vars) -> (r: Result<Vec<Instruction>, CompilerError>)
        requires
            frame_fits(old(vars)@),
            !(unit_code(old(vars)@, binary_expr(BinaryOp::Assignment, self.target, self.value)) is Unsupported),
        ensures
            final(vars)@.parameters == old(vars)@.parameters,
            unit_result(r, unit_code(old(vars)@, binary_expr(BinaryOp::Assignment, self.target, self.value)), final(vars)@),
        decreases self, 0int,
    {
        let ghost m = vars@;
        let ghost target_node = node_view(self.target);
        let ghost value_node = node_view(self.value);
        assert(binary_expr(BinaryOp::Assignment, self.target, self.value) == SpecExpr::Binary(
            BinaryOp::Assignment,
            Box::new(target_node),
            Box::new(value_node),
        ));
        assert(value_node.inner == self.value.inner@);
        let Assignment { target, value } = self;
        let RangeAnnotation { range, inner: target_expr } = target;
        match target_expr {
            Expression::Iter(iter) => {
                let Iter { inner } = *iter;
                let ghost inner_node = node_view(inner);
                assert(target_node.inner == SpecExpr::Unary(UnaryOp::Iter, Box::new(inner_node)));
                assert(inner_node.inner == inner.inner@);
                let inner_range = inner.range.start..inner.range.end;
                let value_range = value.range.start..value.range.end;
                vars.begin_scope();
                let (lhs_code, lhs_value) = match inner.inner.compile(vars) {
                    Ok(x) => x,
                    Err(_) => unreached(),
                };
                let (lhs_op, lhs_type) = match lhs_value {
                    Some(v) => v,
                    None => {
                        return Err(CompilerError::InvalidDerefError(InvalidDerefError { range, found: None }));
                    },
                };
                let inner_type = match lhs_type {
                    CeriumType::Pointer(t) => *t,
                    other => {
                        return Err(CompilerError::InvalidDerefError(InvalidDerefError { range, found: Some(other) }));
                    },
                };
                let (rhs_code, rhs_value) = match value.inner.compile(vars) {
                    Ok(x) => x,
                    Err(_) => unreached(),
                };
                let (rhs_op, rhs_type) = match rhs_value {
                    Some(v) => v,
                    None => unreached(),
                };
                if !inner_type.equals(&rhs_type) {
                    return Err(
                        CompilerError::MismatchedAssignTypeError(
                            MismatchedAssignTypeError {
                                dst_range: inner_range,
                                dst_type: Some(inner_type),
                                src_range: value_range,
                                src_type: Some(rhs_type),
                            },
                        ),
                    );
                }
                let mut result = lhs_code;
                let mut rhs_code = rhs_code;
                let ghost l = result@;
                let ghost r = rhs_code@;
                result.append(&mut rhs_code);
                let write = Instruction::Writeitr(lhs_op, rhs_op);
                result.push(write);
                proof {
                    lemma_instructions_append(l, r);
                    lemma_instructions_push(l + r, write);
                    assert(instructions_view(result@) =~= instructions_view(l) + instructions_view(r) + seq![write@]);
                }
                vars.end_scope();
                Ok(result)
            },
            _ => unreached(),
        }
    }
}

} // verus!
