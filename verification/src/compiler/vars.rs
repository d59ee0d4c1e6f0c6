//! Where the values of a function live while it is compiled: its local variables in
//! registers and stack slots, its parameters below the frame, and the globals by name.
use crate::compiler::assembly::{
    instructions_view, Annotation, Instruction, Operand, Register, SpecInstruction, SpecOperand,
    SpecRegister,
};
use crate::compiler::declarations::keys_of;
use crate::parser::ast::{join_names, Qualifier};
use crate::parser::cerium_type::{CeriumType, SpecType};
use crate::text::{decimal, decimal_text, lemma_decimal_injective, signed_decimal, signed_decimal_text};
use vstd::prelude::*;
use vstd::string::*;

verus! {

/// A named entry (a global or a parameter) as a mathematical value.
pub type SpecEntry = (Seq<Seq<char>>, SpecType);

/// A local variable slot as a mathematical value: its name, if it has one, and its type.
pub type SpecSlot = (Option<Seq<Seq<char>>>, SpecType);

/// The mathematical value of a `Vars`.
pub struct VarsModel {
    pub globals: Seq<SpecEntry>,
    pub parameters: Seq<SpecEntry>,
    pub vars: Seq<SpecSlot>,
    pub max_size: nat,
    pub scopes: Seq<nat>,
    pub label_counter: usize,
}

/// There are few enough parameters that their offsets below the frame fit in an `isize`.
pub open spec fn frame_fits(m: VarsModel) -> bool {
    m.parameters.len() + 2 <= isize::MAX
}

/// The value of a named entry.
pub open spec fn entry_view(e: (Qualifier, CeriumType)) -> SpecEntry {
    (e.0@, e.1@)
}

/// The values of named entries.
pub open spec fn entries_view(es: Seq<(Qualifier, CeriumType)>) -> Seq<SpecEntry> {
    es.map_values(|e: (Qualifier, CeriumType)| entry_view(e))
}

/// The value of a slot.
pub open spec fn slot_view(s: (Option<Qualifier>, CeriumType)) -> SpecSlot {
    (
        match s.0 {
            Some(q) => Some(q@),
            None => None,
        },
        s.1@,
    )
}

/// The general-purpose register that holds local slot `idx`, for `idx < 7`.
pub open spec fn slot_register(idx: nat) -> SpecRegister {
    if idx == 0 {
        SpecRegister::R1
    } else if idx == 1 {
        SpecRegister::R2
    } else if idx == 2 {
        SpecRegister::R3
    } else if idx == 3 {
        SpecRegister::R4
    } else if idx == 4 {
        SpecRegister::R5
    } else if idx == 5 {
        SpecRegister::R6
    } else {
        SpecRegister::R7
    }
}

/// Where local slot `idx` lives: the first seven in registers `r1`..`r7`, the others
/// in memory at the offset `idx - 7`.
pub open spec fn slot_operand(idx: nat) -> SpecOperand {
    if idx < 7 {
        SpecOperand::Direct(slot_register(idx))
    } else {
        SpecOperand::Indirect(SpecRegister::RN(decimal_text((idx - 7) as nat)))
    }
}

/// The index of the last slot named `name`.
pub open spec fn last_slot_named(vars: Seq<SpecSlot>, name: Seq<Seq<char>>) -> Option<nat>
    decreases vars.len(),
{
    if vars.len() == 0 {
        None
    } else if vars.last().0 == Some(name) {
        Some((vars.len() - 1) as nat)
    } else {
        last_slot_named(vars.drop_last(), name)
    }
}

/// The index of the last entry named `name`.
pub open spec fn last_entry_named(es: Seq<SpecEntry>, name: Seq<Seq<char>>) -> Option<nat>
    decreases es.len(),
{
    if es.len() == 0 {
        None
    } else if es.last().0 == name {
        Some((es.len() - 1) as nat)
    } else {
        last_entry_named(es.drop_last(), name)
    }
}

/// Where parameter `idx` of `count` lives: below the frame, at the offset
/// `idx - (count + 2)`.
pub open spec fn parameter_operand(idx: nat, count: nat) -> SpecOperand {
    SpecOperand::Indirect(SpecRegister::RN(signed_decimal_text(idx - (count + 2))))
}

/// What a name refers to: the innermost local slot of that name, else the last parameter
/// of that name, else the global of that name (by its written name); with its type.
pub open spec fn lookup(m: VarsModel, name: Seq<Seq<char>>) -> Option<(SpecOperand, SpecType)> {
    match last_slot_named(m.vars, name) {
        Some(i) => Some((slot_operand(i), m.vars[i as int].1)),
        None => match last_entry_named(m.parameters, name) {
            Some(i) => Some((parameter_operand(i, m.parameters.len()), m.parameters[i as int].1)),
            None => match last_entry_named(m.globals, name) {
                Some(i) => Some(
                    (SpecOperand::Direct(SpecRegister::RN(join_names(name))), m.globals[i as int].1),
                ),
                None => None,
            },
        },
    }
}

/// The number of local slots kept in registers when `size` slots are used.
pub open spec fn in_registers(size: nat) -> nat {
    if size < 7 {
        size
    } else {
        7
    }
}

/// The code before a function body that uses `size` local slots: save the registers
/// it uses, reserve the slots beyond them, and note how far the stack moved.
pub open spec fn prologue(size: nat) -> Seq<SpecInstruction> {
    Seq::new(in_registers(size), |i: int| SpecInstruction::Push(slot_operand(i as nat))) + (
    if size > 7 {
        seq![
            SpecInstruction::Add(
                SpecOperand::Direct(SpecRegister::RS),
                SpecOperand::Direct(SpecRegister::RN(decimal_text((size - 7) as nat))),
            ),
        ]
    } else {
        Seq::empty()
    }) + (if size > 0 {
        seq![SpecInstruction::Annotation(Annotation::NonNegativeStackOffset(in_registers(size) as isize))]
    } else {
        Seq::empty()
    })
}

/// The code after a function body that uses `size` local slots: note how far the stack
/// moves back, release the slots beyond the registers, and restore the registers,
/// in the same order in which the prologue saved them.
pub open spec fn epilogue(size: nat) -> Seq<SpecInstruction> {
    (if size > 0 {
        seq![SpecInstruction::Annotation(Annotation::NonNegativeStackOffset(-(in_registers(size) as int) as isize))]
    } else {
        Seq::empty()
    }) + (if size > 7 {
        seq![
            SpecInstruction::Sub(
                SpecOperand::Direct(SpecRegister::RS),
                SpecOperand::Direct(SpecRegister::RN(decimal_text((size - 7) as nat))),
            ),
        ]
    } else {
        Seq::empty()
    }) + Seq::new(in_registers(size), |i: int| SpecInstruction::Pop(slot_operand(i as nat)))
}

/// The operand of local slot `idx`.
pub fn var_op(idx: usize) -> (r: Operand)
    ensures
        r@ == slot_operand(idx as nat),
{
    match idx {
        0 => Operand::Direct(Register::R1),
        1 => Operand::Direct(Register::R2),
        2 => Operand::Direct(Register::R3),
        3 => Operand::Direct(Register::R4),
        4 => Operand::Direct(Register::R5),
        5 => Operand::Direct(Register::R6),
        6 => Operand::Direct(Register::R7),
        _ => Operand::Indirect(Register::RN(decimal(idx - 7))),
    }
}

/// The places of the values of one function being compiled.
pub struct Vars<'a> {
    globals: &'a Vec<(Qualifier, CeriumType)>,
    parameters: Vec<(Qualifier, CeriumType)>,
    vars: Vec<(Option<Qualifier>, CeriumType)>,
    max_size: usize,
    scopes: Vec<usize>,
    label_counter: usize,
}

impl<'a> View for Vars<'a> {
    type V = VarsModel;

    closed spec fn view(&self) -> VarsModel {
        VarsModel {
            globals: entries_view(self.globals@),
            parameters: entries_view(self.parameters@),
            vars: self.vars@.map_values(|s: (Option<Qualifier>, CeriumType)| slot_view(s)),
            max_size: self.max_size as nat,
            scopes: self.scopes@.map_values(|n: usize| n as nat),
            label_counter: self.label_counter,
        }
    }
}

impl<'a> Vars<'a> {
    /// The places of a function with the given parameters, in a program with the given
    /// globals, each name once (as in a map); no local slot is used yet.
    pub fn new(globals: &'a Vec<(Qualifier, CeriumType)>, parameters: Vec<(Qualifier, CeriumType)>) -> (r: Self)
        requires
            keys_of(entries_view(globals@)).no_duplicates(),
            parameters@.len() + 2 <= isize::MAX,
        ensures
            r@ == (VarsModel {
                globals: entries_view(globals@),
                parameters: entries_view(parameters@),
                vars: Seq::empty(),
                max_size: 0,
                scopes: Seq::empty(),
                label_counter: 0,
            }),
    {
        let r = Vars { globals, parameters, vars: Vec::new(), max_size: 0, scopes: Vec::new(), label_counter: 0 };
        assert(r@.vars =~= Seq::empty());
        assert(r@.scopes =~= Seq::empty());
        r
    }


}

/// Slots after index `i` that are not named `name` do not change which slot the name
/// refers to.
proof fn lemma_last_slot_prefix(vars: Seq<SpecSlot>, name: Seq<Seq<char>>, i: int)
    requires
        0 <= i <= vars.len(),
        forall|j: int| i <= j < vars.len() ==> (#[trigger] vars[j]).0 != Some(name),
    ensures
        last_slot_named(vars, name) == last_slot_named(vars.subrange(0, i), name),
    decreases vars.len() - i,
{
    if i == vars.len() {
        assert(vars.subrange(0, i) =~= vars);
    } else {
        assert(vars.last() == vars[vars.len() - 1]);
        lemma_last_slot_prefix(vars.drop_last(), name, i);
        assert(vars.drop_last().subrange(0, i) =~= vars.subrange(0, i));
    }
}

/// Entries after index `i` that are not named `name` do not change which entry the name
/// refers to.
proof fn lemma_last_entry_prefix(es: Seq<SpecEntry>, name: Seq<Seq<char>>, i: int)
    requires
        0 <= i <= es.len(),
        forall|j: int| i <= j < es.len() ==> (#[trigger] es[j]).0 != name,
    ensures
        last_entry_named(es, name) == last_entry_named(es.subrange(0, i), name),
    decreases es.len() - i,
{
    if i == es.len() {
        assert(es.subrange(0, i) =~= es);
    } else {
        assert(es.last() == es[es.len() - 1]);
        lemma_last_entry_prefix(es.drop_last(), name, i);
        assert(es.drop_last().subrange(0, i) =~= es.subrange(0, i));
    }
}

/// The label counter after one more label: one more, wrapping to zero past the largest
/// `usize`.
pub open spec fn next_label(counter: usize) -> usize {
    if counter == usize::MAX {
        0
    } else {
        (counter + 1) as usize
    }
}

/// The places after a slot is pushed.
pub open spec fn pushed(m: VarsModel, slot: SpecSlot) -> VarsModel {
    VarsModel {
        vars: m.vars.push(slot),
        max_size: if m.max_size < m.vars.len() + 1 {
            m.vars.len() + 1
        } else {
            m.max_size
        },
        ..m
    }
}

/// The places after the type of the last slot, if there is one, becomes `t`.
pub open spec fn retyped_top(m: VarsModel, t: SpecType) -> VarsModel {
    if m.vars.len() == 0 {
        m
    } else {
        VarsModel { vars: m.vars.update(m.vars.len() - 1, (m.vars.last().0, t)), ..m }
    }
}

/// The places after the last slot, if there is one, is released.
pub open spec fn popped(m: VarsModel) -> VarsModel {
    if m.vars.len() == 0 {
        m
    } else {
        VarsModel { vars: m.vars.drop_last(), ..m }
    }
}

/// The places after a scope begins: the number of slots now in use is remembered.
pub open spec fn scope_begun(m: VarsModel) -> VarsModel {
    VarsModel { scopes: m.scopes.push(m.vars.len()), ..m }
}

/// The places after the innermost scope ends: the slots pushed since it began are
/// released. Without an open scope nothing changes.
pub open spec fn scope_ended(m: VarsModel) -> VarsModel {
    if m.scopes.len() == 0 {
        m
    } else {
        let len = m.scopes.last();
        VarsModel {
            scopes: m.scopes.drop_last(),
            vars: if len <= m.vars.len() {
                m.vars.subrange(0, len as int)
            } else {
                m.vars
            },
            ..m
        }
    }
}

/// Ending a scope releases exactly the slots taken since it began: if, since the scope
/// began in state `m`, slots were only pushed and released above the slots in use then,
/// and no other scope is still open, ending it brings back the slots and scopes of `m`.
pub proof fn law_scope_restores(m: VarsModel, inner: VarsModel)
    requires
        inner.scopes == scope_begun(m).scopes,
        m.vars.len() <= inner.vars.len(),
        inner.vars.subrange(0, m.vars.len() as int) == m.vars,
    ensures
        scope_ended(inner).vars == m.vars,
        scope_ended(inner).scopes == m.scopes,
{
    assert(inner.scopes.drop_last() =~= m.scopes);
}

/// A name refers to the slot it was last pushed with, at the type it was pushed with.
pub proof fn law_find_latest_binding(m: VarsModel, name: Seq<Seq<char>>, t: SpecType)
    ensures
        lookup(pushed(m, (Some(name), t)), name) == Some((slot_operand(m.vars.len()), t)),
{
    let m2 = pushed(m, (Some(name), t));
    assert(m2.vars.last() == (Some(name), t));
}

/// Pushing a slot and releasing it again leaves what every name refers to unchanged.
pub proof fn law_push_pop_find(m: VarsModel, slot: SpecSlot, name: Seq<Seq<char>>)
    ensures
        lookup(popped(pushed(m, slot)), name) == lookup(m, name),
{
    assert(popped(pushed(m, slot)).vars =~= m.vars);
}

/// Different slots live in different places.
pub proof fn law_slots_distinct(i: nat, j: nat)
    requires
        i != j,
    ensures
        slot_operand(i) != slot_operand(j),
{
    if i >= 7 && j >= 7 {
        if decimal_text((i - 7) as nat) == decimal_text((j - 7) as nat) {
            lemma_decimal_injective((i - 7) as nat, (j - 7) as nat);
        }
    }
}

/// Labels made with different counters are different.
pub proof fn law_labels_distinct(c1: usize, c2: usize)
    requires
        c1 != c2,
    ensures
        ".L"@ + decimal_text(c1 as nat) != ".L"@ + decimal_text(c2 as nat),
{
    reveal_strlit(".L");
    let a = ".L"@ + decimal_text(c1 as nat);
    let b = ".L"@ + decimal_text(c2 as nat);
    assert(".L"@.len() == 2);
    if a == b {
        assert(a.subrange(2, a.len() as int) =~= decimal_text(c1 as nat));
        assert(b.subrange(2, b.len() as int) =~= decimal_text(c2 as nat));
        lemma_decimal_injective(c1 as nat, c2 as nat);
    }
}

/// The instruction that undoes `i`: a push by a pop, a reservation by a release, a stack
/// movement by the opposite movement.
pub open spec fn undo(i: SpecInstruction) -> SpecInstruction {
    match i {
        SpecInstruction::Push(o) => SpecInstruction::Pop(o),
        SpecInstruction::Add(a, b) => SpecInstruction::Sub(a, b),
        SpecInstruction::Annotation(Annotation::NonNegativeStackOffset(k)) => SpecInstruction::Annotation(
            Annotation::NonNegativeStackOffset(-k as isize),
        ),
        _ => i,
    }
}

/// The epilogue undoes the prologue, last step first. This holds while at most one
/// register is saved; with two or more the epilogue restores them in the order in which
/// they were saved.
pub proof fn law_epilogue_undoes_prologue(size: nat)
    requires
        size <= 1,
    ensures
        epilogue(size) == prologue(size).reverse().map_values(|i: SpecInstruction| undo(i)),
{
    reveal_with_fuel(decimal_text, 1);
    if size == 0 {
        assert(prologue(size) =~= Seq::empty());
        assert(epilogue(size) =~= Seq::empty());
        assert(epilogue(size) =~= prologue(size).reverse().map_values(|i: SpecInstruction| undo(i)));
    } else {
        assert(prologue(size) =~= seq![
            SpecInstruction::Push(slot_operand(0)),
            SpecInstruction::Annotation(Annotation::NonNegativeStackOffset(1)),
        ]);
        assert(epilogue(size) =~= seq![
            SpecInstruction::Annotation(Annotation::NonNegativeStackOffset(-1isize)),
            SpecInstruction::Pop(slot_operand(0)),
        ]);
        assert(epilogue(size) =~= prologue(size).reverse().map_values(|i: SpecInstruction| undo(i)));
    }
}

impl<'a> Vars<'a> {
    /// A fresh label: `.L` followed by the number of labels made before.
    pub fn label(&mut self) -> (r: String)
        ensures
            r@ == ".L"@ + decimal_text(old(self)@.label_counter as nat),
            final(self)@ == (VarsModel { label_counter: next_label(old(self)@.label_counter), ..old(self)@ }),
    {
        let n = self.label_counter;
        self.label_counter = if n == usize::MAX {
            0
        } else {
            n + 1
        };
        let mut r = String::from_str(".L");
        r.append(decimal(n).as_str());
        proof {
            reveal_strlit(".L");
        }
        r
    }

    /// Takes a new slot for a value of type `var_type`, named `name` if it has a name, and
    /// returns where it lives.
    pub fn push(&mut self, name: Option<Qualifier>, var_type: CeriumType) -> (r: Operand)
        ensures
            final(self)@ == pushed(old(self)@, slot_view((name, var_type))),
            r@ == slot_operand(old(self)@.vars.len()),
    {
        let ghost slot = slot_view((name, var_type));
        self.vars.push((name, var_type));
        let len = self.vars.len();
        if self.max_size < len {
            self.max_size = len;
        }
        proof {
            assert(self@.vars =~= old(self)@.vars.push(slot));
        }
        var_op(len - 1)
    }

    /// Gives the last slot, if there is one, the type `var_type`.
    pub fn alter_top_type(&mut self, var_type: CeriumType)
        ensures
            final(self)@ == retyped_top(old(self)@, var_type@),
    {
        if let Some((name, _)) = self.vars.pop() {
            self.vars.push((name, var_type));
            proof {
                assert(self@.vars =~= old(self)@.vars.update(
                    old(self)@.vars.len() - 1,
                    (old(self)@.vars.last().0, var_type@),
                ));
            }
        }
    }

    /// Releases the last slot, if there is one.
    pub fn pop(&mut self)
        ensures
            final(self)@ == popped(old(self)@),
    {
        let _ = self.vars.pop();
        proof {
            if old(self)@.vars.len() > 0 {
                assert(self@.vars =~= old(self)@.vars.drop_last());
            }
        }
    }

    /// Begins a scope.
    pub fn begin_scope(&mut self)
        ensures
            final(self)@ == scope_begun(old(self)@),
    {
        self.scopes.push(self.vars.len());
        proof {
            assert(self@.scopes =~= old(self)@.scopes.push(old(self)@.vars.len()));
        }
    }

    /// Ends the innermost scope, releasing the slots pushed since it began.
    pub fn end_scope(&mut self)
        ensures
            final(self)@ == scope_ended(old(self)@),
    {
        if let Some(len) = self.scopes.pop() {
            self.vars.truncate(len);
            proof {
                assert(self@.scopes =~= old(self)@.scopes.drop_last());
                if len <= old(self)@.vars.len() {
                    assert(self@.vars =~= old(self)@.vars.subrange(0, len as int));
                }
            }
        }
    }

    /// What `name` refers to, and its type (see `lookup`).
    pub fn find(&self, name: &Qualifier) -> (r: Option<(Operand, &CeriumType)>)
        requires
            frame_fits(self@),
        ensures
            match r {
                Some((op, t)) => lookup(self@, name@) == Some((op@, t@)),
                None => lookup(self@, name@) is None,
            },
    {
        let ghost m = self@;
        let mut i = self.vars.len();
        while i > 0
            invariant
                i <= self.vars@.len(),
                m == self@,
                forall|j: int| i <= j < m.vars.len() ==> (#[trigger] m.vars[j]).0 != Some(name@),
            decreases i,
        {
            let found = match &self.vars[i - 1].0 {
                Some(q) => q.equals(name),
                None => false,
            };
            assert(m.vars[i - 1] == slot_view(self.vars@[i - 1]));
            if found {
                proof {
                    lemma_last_slot_prefix(m.vars, name@, i as int);
                    assert(m.vars.subrange(0, i as int).last() == m.vars[i - 1]);
                }
                return Some((var_op(i - 1), &self.vars[i - 1].1));
            }
            i = i - 1;
        }
        proof {
            lemma_last_slot_prefix(m.vars, name@, 0);
        }
        let count = self.parameters.len();
        assert(count == m.parameters.len());
        let mut i = count;
        while i > 0
            invariant
                i <= self.parameters@.len(),
                count == self.parameters@.len(),
                count + 2 <= isize::MAX,
                m == self@,
                last_slot_named(m.vars, name@) is None,
                forall|j: int| i <= j < m.parameters.len() ==> (#[trigger] m.parameters[j]).0 != name@,
            decreases i,
        {
            let found = self.parameters[i - 1].0.equals(name);
            assert(m.parameters[i - 1] == entry_view(self.parameters@[i - 1]));
            if found {
                proof {
                    lemma_last_entry_prefix(m.parameters, name@, i as int);
                    assert(m.parameters.subrange(0, i as int).last() == m.parameters[i - 1]);
                }
                let offset = (i - 1) as isize - (count as isize + 2);
                let op = Operand::Indirect(Register::RN(signed_decimal(offset)));
                return Some((op, &self.parameters[i - 1].1));
            }
            i = i - 1;
        }
        proof {
            lemma_last_entry_prefix(m.parameters, name@, 0);
        }
        let mut i = self.globals.len();
        while i > 0
            invariant
                i <= self.globals@.len(),
                m == self@,
                last_slot_named(m.vars, name@) is None,
                last_entry_named(m.parameters, name@) is None,
                forall|j: int| i <= j < m.globals.len() ==> (#[trigger] m.globals[j]).0 != name@,
            decreases i,
        {
            let found = self.globals[i - 1].0.equals(name);
            assert(m.globals[i - 1] == entry_view(self.globals@[i - 1]));
            if found {
                proof {
                    lemma_last_entry_prefix(m.globals, name@, i as int);
                    assert(m.globals.subrange(0, i as int).last() == m.globals[i - 1]);
                }
                let op = Operand::Direct(Register::RN(self.globals[i - 1].0.to_string()));
                return Some((op, &self.globals[i - 1].1));
            }
            i = i - 1;
        }
        proof {
            lemma_last_entry_prefix(m.globals, name@, 0);
        }
        None
    }

    /// The code to put before and after the body of the function: the prologue saves
    /// the registers and reserves the stack slots that the body used, the epilogue gives
    /// them back.
    pub fn collect_affixes(&mut self) -> (r: (Vec<Instruction>, Vec<Instruction>))
        ensures
            final(self)@ == old(self)@,
            instructions_view(r.0@) == prologue(old(self)@.max_size),
            instructions_view(r.1@) == epilogue(old(self)@.max_size),
    {
        let m = self.max_size;
        let k: usize = if m < 7 {
            m
        } else {
            7
        };
        let mut saves: Vec<Instruction> = Vec::new();
        let mut idx: usize = 0;
        while idx < k
            invariant
                k == in_registers(m as nat),
                idx <= k,
                instructions_view(saves@) =~= Seq::new(idx as nat, |i: int| SpecInstruction::Push(slot_operand(i as nat))),
            decreases k - idx,
        {
            let ghost before = instructions_view(saves@);
            let op = var_op(idx);
            saves.push(Instruction::Push(op));
            assert(instructions_view(saves@) =~= before.push(SpecInstruction::Push(slot_operand(idx as nat))));
            idx = idx + 1;
        }
        let ghost saved = instructions_view(saves@);
        if m > 7 {
            saves.push(Instruction::Add(Operand::Direct(Register::RS), Operand::Direct(Register::RN(decimal(m - 7)))));
        }
        let ghost reserved = instructions_view(saves@);
        if m > 0 {
            saves.push(Instruction::Annotation(Annotation::NonNegativeStackOffset(k as isize)));
        }
        proof {
            if m > 7 {
                assert(reserved =~= saved + seq![
                    SpecInstruction::Add(
                        SpecOperand::Direct(SpecRegister::RS),
                        SpecOperand::Direct(SpecRegister::RN(decimal_text((m - 7) as nat))),
                    ),
                ]);
            } else {
                assert(reserved =~= saved + Seq::empty());
            }
            if m > 0 {
                assert(instructions_view(saves@) =~= reserved + seq![
                    SpecInstruction::Annotation(Annotation::NonNegativeStackOffset(k as isize)),
                ]);
            } else {
                assert(instructions_view(saves@) =~= reserved + Seq::empty());
            }
        }
        let mut restores: Vec<Instruction> = Vec::new();
        if m > 0 {
            restores.push(Instruction::Annotation(Annotation::NonNegativeStackOffset(-(k as isize))));
        }
        let ghost noted = instructions_view(restores@);
        if m > 7 {
            restores.push(Instruction::Sub(Operand::Direct(Register::RS), Operand::Direct(Register::RN(decimal(m - 7)))));
        }
        let ghost released = instructions_view(restores@);
        let mut idx: usize = 0;
        while idx < k
            invariant
                k == in_registers(m as nat),
                idx <= k,
                instructions_view(restores@) =~= released + Seq::new(idx as nat, |i: int| SpecInstruction::Pop(slot_operand(i as nat))),
            decreases k - idx,
        {
            let ghost before = instructions_view(restores@);
            let op = var_op(idx);
            restores.push(Instruction::Pop(op));
            assert(instructions_view(restores@) =~= before.push(SpecInstruction::Pop(slot_operand(idx as nat))));
            idx = idx + 1;
        }
        proof {
            if m > 0 {
                assert(noted =~= seq![
                    SpecInstruction::Annotation(Annotation::NonNegativeStackOffset(-(k as int) as isize)),
                ]);
            } else {
                assert(noted =~= Seq::empty());
            }
            if m > 7 {
                assert(released =~= noted + seq![
                    SpecInstruction::Sub(
                        SpecOperand::Direct(SpecRegister::RS),
                        SpecOperand::Direct(SpecRegister::RN(decimal_text((m - 7) as nat))),
                    ),
                ]);
            } else {
                assert(released =~= noted + Seq::empty());
            }
        }
        (saves, restores)
    }
}

} // verus!
