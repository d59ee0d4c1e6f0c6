//! The intermediate code that code generation is moving to.
use vstd::prelude::*;

verus! {

/// An instruction of the intermediate code, over operands of type `Operand`.
#[derive(Debug)]
pub enum Instruction<Operand> {
    /// Copies the second operand into the first.
    Mov(Operand, Operand),
}

} // verus!
