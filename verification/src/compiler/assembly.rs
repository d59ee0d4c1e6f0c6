//! The assembly that code generation produces.
use crate::text::{signed_decimal, signed_decimal_text};
use vstd::prelude::*;
use vstd::string::*;

verus! {

/// A register, or a named location written as it is.
#[derive(Debug)]
pub enum Register {
    R0,
    R1,
    R2,
    R3,
    R4,
    R5,
    R6,
    R7,
    RR,
    RI,
    RB,
    RS,
    RG,
    RD,
    RF,
    RN(String),
}

/// The mathematical value of a `Register`.
pub enum SpecRegister {
    R0,
    R1,
    R2,
    R3,
    R4,
    R5,
    R6,
    R7,
    RR,
    RI,
    RB,
    RS,
    RG,
    RD,
    RF,
    RN(Seq<char>),
}

impl View for Register {
    type V = SpecRegister;

    open spec fn view(&self) -> SpecRegister {
        match self {
            Register::R0 => SpecRegister::R0,
            Register::R1 => SpecRegister::R1,
            Register::R2 => SpecRegister::R2,
            Register::R3 => SpecRegister::R3,
            Register::R4 => SpecRegister::R4,
            Register::R5 => SpecRegister::R5,
            Register::R6 => SpecRegister::R6,
            Register::R7 => SpecRegister::R7,
            Register::RR => SpecRegister::RR,
            Register::RI => SpecRegister::RI,
            Register::RB => SpecRegister::RB,
            Register::RS => SpecRegister::RS,
            Register::RG => SpecRegister::RG,
            Register::RD => SpecRegister::RD,
            Register::RF => SpecRegister::RF,
            Register::RN(n) => SpecRegister::RN(n@),
        }
    }
}

/// An operand: a register's value, or the memory the register points to.
#[derive(Debug)]
pub enum Operand {
    Direct(Register),
    Indirect(Register),
}

/// The mathematical value of an `Operand`.
pub enum SpecOperand {
    Direct(SpecRegister),
    Indirect(SpecRegister),
}

impl View for Operand {
    type V = SpecOperand;

    open spec fn view(&self) -> SpecOperand {
        match self {
            Operand::Direct(r) => SpecOperand::Direct(r@),
            Operand::Indirect(r) => SpecOperand::Indirect(r@),
        }
    }
}

/// A note for later passes, carried in the instruction stream.
#[derive(Debug, Clone, Copy)]
pub enum Annotation {
    /// The stack grows (or, when negative, shrinks back) by this many slots.
    NonNegativeStackOffset(isize),
}

/// An assembly instruction.
#[derive(Debug)]
pub enum Instruction {
    Label(String),
    Mov(Operand, Operand),
    Add(Operand, Operand),
    Sub(Operand, Operand),
    Fadd(Operand, Operand),
    Fsub(Operand, Operand),
    Read(Operand, Operand),
    Readitr(Operand, Operand),
    Writeitr(Operand, Operand),
    Push(Operand),
    Pop(Operand),
    Annotation(Annotation),
    Ret,
}

/// The mathematical value of an `Instruction`.
pub enum SpecInstruction {
    Label(Seq<char>),
    Mov(SpecOperand, SpecOperand),
    Add(SpecOperand, SpecOperand),
    Sub(SpecOperand, SpecOperand),
    Fadd(SpecOperand, SpecOperand),
    Fsub(SpecOperand, SpecOperand),
    Read(SpecOperand, SpecOperand),
    Readitr(SpecOperand, SpecOperand),
    Writeitr(SpecOperand, SpecOperand),
    Push(SpecOperand),
    Pop(SpecOperand),
    Annotation(Annotation),
    Ret,
}

impl View for Instruction {
    type V = SpecInstruction;

    open spec fn view(&self) -> SpecInstruction {
        match self {
            Instruction::Label(l) => SpecInstruction::Label(l@),
            Instruction::Mov(a, b) => SpecInstruction::Mov(a@, b@),
            Instruction::Add(a, b) => SpecInstruction::Add(a@, b@),
            Instruction::Sub(a, b) => SpecInstruction::Sub(a@, b@),
            Instruction::Fadd(a, b) => SpecInstruction::Fadd(a@, b@),
            Instruction::Fsub(a, b) => SpecInstruction::Fsub(a@, b@),
            Instruction::Read(a, b) => SpecInstruction::Read(a@, b@),
            Instruction::Readitr(a, b) => SpecInstruction::Readitr(a@, b@),
            Instruction::Writeitr(a, b) => SpecInstruction::Writeitr(a@, b@),
            Instruction::Push(a) => SpecInstruction::Push(a@),
            Instruction::Pop(a) => SpecInstruction::Pop(a@),
            Instruction::Annotation(a) => SpecInstruction::Annotation(*a),
            Instruction::Ret => SpecInstruction::Ret,
        }
    }
}

/// The mathematical values of a sequence of instructions.
pub open spec fn instructions_view(v: Seq<Instruction>) -> Seq<SpecInstruction> {
    v.map_values(|i: Instruction| i@)
}

/// The text of a register.
pub open spec fn register_text(r: SpecRegister) -> Seq<char> {
    match r {
        SpecRegister::R0 => "r0"@,
        SpecRegister::R1 => "r1"@,
        SpecRegister::R2 => "r2"@,
        SpecRegister::R3 => "r3"@,
        SpecRegister::R4 => "r4"@,
        SpecRegister::R5 => "r5"@,
        SpecRegister::R6 => "r6"@,
        SpecRegister::R7 => "r7"@,
        SpecRegister::RR => "rr"@,
        SpecRegister::RI => "ri"@,
        SpecRegister::RB => "rb"@,
        SpecRegister::RS => "rs"@,
        SpecRegister::RG => "rg"@,
        SpecRegister::RD => "rd"@,
        SpecRegister::RF => "rf"@,
        SpecRegister::RN(n) => n,
    }
}

/// The text of an operand: the register, in brackets when indirect.
pub open spec fn operand_text(o: SpecOperand) -> Seq<char> {
    match o {
        SpecOperand::Direct(r) => register_text(r),
        SpecOperand::Indirect(r) => "["@ + register_text(r) + "]"@,
    }
}

/// The text of an instruction: a label followed by `:`, or an indented mnemonic
/// followed by its operands.
pub open spec fn instruction_text(i: SpecInstruction) -> Seq<char> {
    match i {
        SpecInstruction::Label(l) => l + ":"@,
        SpecInstruction::Mov(a, b) => "    mov "@ + operand_text(a) + " "@ + operand_text(b),
        SpecInstruction::Add(a, b) => "    add "@ + operand_text(a) + " "@ + operand_text(b),
        SpecInstruction::Sub(a, b) => "    sub "@ + operand_text(a) + " "@ + operand_text(b),
        SpecInstruction::Fadd(a, b) => "    fadd "@ + operand_text(a) + " "@ + operand_text(b),
        SpecInstruction::Fsub(a, b) => "    fsub "@ + operand_text(a) + " "@ + operand_text(b),
        SpecInstruction::Read(a, b) => "    read "@ + operand_text(a) + " "@ + operand_text(b),
        SpecInstruction::Readitr(a, b) => "    readitr "@ + operand_text(a) + " "@ + operand_text(b),
        SpecInstruction::Writeitr(a, b) => "    writeitr "@ + operand_text(a) + " "@ + operand_text(b),
        SpecInstruction::Push(a) => "    push "@ + operand_text(a),
        SpecInstruction::Pop(a) => "    pop "@ + operand_text(a),
        SpecInstruction::Annotation(Annotation::NonNegativeStackOffset(n)) => "    ; non-negative stack offset "@ + signed_decimal_text(n as int),
        SpecInstruction::Ret => "    ret"@,
    }
}

impl Register {
    /// A copy of this register.
    pub fn duplicate(&self) -> (r: Register)
        ensures
            r == *self,
    {
        match self {
            Register::R0 => Register::R0,
            Register::R1 => Register::R1,
            Register::R2 => Register::R2,
            Register::R3 => Register::R3,
            Register::R4 => Register::R4,
            Register::R5 => Register::R5,
            Register::R6 => Register::R6,
            Register::R7 => Register::R7,
            Register::RR => Register::RR,
            Register::RI => Register::RI,
            Register::RB => Register::RB,
            Register::RS => Register::RS,
            Register::RG => Register::RG,
            Register::RD => Register::RD,
            Register::RF => Register::RF,
            Register::RN(n) => Register::RN(n.clone()),
        }
    }

    /// The text of this register.
    pub fn to_string(&self) -> (r: String)
        ensures
            r@ == register_text(self@),
    {
        match self {
            Register::R0 => String::from_str("r0"),
            Register::R1 => String::from_str("r1"),
            Register::R2 => String::from_str("r2"),
            Register::R3 => String::from_str("r3"),
            Register::R4 => String::from_str("r4"),
            Register::R5 => String::from_str("r5"),
            Register::R6 => String::from_str("r6"),
            Register::R7 => String::from_str("r7"),
            Register::RR => String::from_str("rr"),
            Register::RI => String::from_str("ri"),
            Register::RB => String::from_str("rb"),
            Register::RS => String::from_str("rs"),
            Register::RG => String::from_str("rg"),
            Register::RD => String::from_str("rd"),
            Register::RF => String::from_str("rf"),
            Register::RN(n) => n.clone(),
        }
    }
}

impl Operand {
    /// A copy of this operand.
    pub fn duplicate(&self) -> (r: Operand)
        ensures
            r == *self,
    {
        match self {
            Operand::Direct(r) => Operand::Direct(r.duplicate()),
            Operand::Indirect(r) => Operand::Indirect(r.duplicate()),
        }
    }

    /// The text of this operand.
    pub fn to_string(&self) -> (r: String)
        ensures
            r@ == operand_text(self@),
    {
        match self {
            Operand::Direct(reg) => reg.to_string(),
            Operand::Indirect(reg) => {
                let mut r = String::from_str("[");
                r.append(reg.to_string().as_str());
                r.append("]");
                r
            },
        }
    }
}

impl Instruction {
    /// The text of this instruction.
    pub fn to_string(&self) -> (r: String)
        ensures
            r@ == instruction_text(self@),
    {
        match self {
            Instruction::Label(label) => {
                let mut r = label.clone();
                r.append(":");
                r
            },
            Instruction::Mov(a, b) => {
                let mut r = String::from_str("    mov ");
                r.append(a.to_string().as_str());
                r.append(" ");
                r.append(b.to_string().as_str());
                r
            },
            Instruction::Add(a, b) => {
                let mut r = String::from_str("    add ");
                r.append(a.to_string().as_str());
                r.append(" ");
                r.append(b.to_string().as_str());
                r
            },
            Instruction::Sub(a, b) => {
                let mut r = String::from_str("    sub ");
                r.append(a.to_string().as_str());
                r.append(" ");
                r.append(b.to_string().as_str());
                r
            },
            Instruction::Fadd(a, b) => {
                let mut r = String::from_str("    fadd ");
                r.append(a.to_string().as_str());
                r.append(" ");
                r.append(b.to_string().as_str());
                r
            },
            Instruction::Fsub(a, b) => {
                let mut r = String::from_str("    fsub ");
                r.append(a.to_string().as_str());
                r.append(" ");
                r.append(b.to_string().as_str());
                r
            },
            Instruction::Read(a, b) => {
                let mut r = String::from_str("    read ");
                r.append(a.to_string().as_str());
                r.append(" ");
                r.append(b.to_string().as_str());
                r
            },
            Instruction::Readitr(a, b) => {
                let mut r = String::from_str("    readitr ");
                r.append(a.to_string().as_str());
                r.append(" ");
                r.append(b.to_string().as_str());
                r
            },
            Instruction::Writeitr(a, b) => {
                let mut r = String::from_str("    writeitr ");
                r.append(a.to_string().as_str());
                r.append(" ");
                r.append(b.to_string().as_str());
                r
            },
            Instruction::Push(a) => {
                let mut r = String::from_str("    push ");
                r.append(a.to_string().as_str());
                r
            },
            Instruction::Pop(a) => {
                let mut r = String::from_str("    pop ");
                r.append(a.to_string().as_str());
                r
            },
            Instruction::Annotation(Annotation::NonNegativeStackOffset(n)) => {
                let mut r = String::from_str("    ; non-negative stack offset ");
                r.append(signed_decimal(*n).as_str());
                r
            },
            Instruction::Ret => String::from_str("    ret"),
        }
    }
}

} // verus!
