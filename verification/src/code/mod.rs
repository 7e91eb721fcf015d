//! The instruction set of the stack virtual machine: a linear opcode list
//! over a constant pool.

use vstd::prelude::*;

verus! {

/// One instruction. `OpConstant` pushes a constant-pool entry by index;
/// `OpTrue`/`OpFalse` push the corresponding boolean; `OpPop` discards the
/// top of the stack into the "last popped" slot; the arithmetic opcodes pop
/// two integers and push the result.
#[derive(Debug, Clone, Copy, PartialEq, Eq, Structural)]
pub enum Instruction {
    OpConstant(usize),
    OpAdd,
    OpSubtract,
    OpMultiply,
    OpDivide,
    OpPop,
    OpTrue,
    OpFalse,
}

pub type Instructions = Vec<Instruction>;

} // verus!
