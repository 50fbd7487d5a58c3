//! The instruction set: register names, instructions and fault kinds.

use vstd::prelude::*;

verus! {

/// The six addressable registers: four general-purpose ones and the two
/// control registers. Programs read and write all six in the same way.
#[derive(Clone, Copy, Debug, PartialEq, Eq, Structural)]
pub enum VMReg {
    A,
    B,
    C,
    D,
    /// Instruction pointer.
    IP,
    /// Stack pointer.
    SP,
}

/// A decoded instruction.
///
/// Binary instructions take the left register first; the result overwrites
/// the left register.
#[derive(Clone, Copy, Debug, PartialEq, Eq, Structural)]
pub enum VMOp {
    /// Push an immediate word.
    PushI(u64),
    /// Push the value of a register.
    PushR(VMReg),
    /// Pop the top of the stack into a register.
    Pop(VMReg),
    Add(VMReg, VMReg),
    Sub(VMReg, VMReg),
    Mul(VMReg, VMReg),
    Div(VMReg, VMReg),
    Xor(VMReg, VMReg),
    And(VMReg, VMReg),
    Or(VMReg, VMReg),
    Shl(VMReg, VMReg),
    Shr(VMReg, VMReg),
    /// Read one input byte into a register, ignoring carriage returns.
    Inp(VMReg),
    /// Skip the next instruction unless left equals right.
    Eq(VMReg, VMReg),
    /// Skip the next instruction unless left is strictly greater than right.
    Gt(VMReg, VMReg),
    /// Skip the next instruction unless left is strictly less than right.
    Lt(VMReg, VMReg),
    /// Continue at an absolute address.
    Jmp(u64),
    /// Continue at the current address plus an offset.
    JmpRel(u64),
    /// Push the address of the following instruction, then jump.
    Call(u64),
    /// Pop an address and continue there.
    Ret,
    /// Write the low eight bits of a register to the output.
    Print(VMReg),
    /// Stop the machine.
    Halt,
}

/// Why a machine stopped without halting. Every fault is fatal.
#[derive(Clone, Copy, Debug, PartialEq, Eq, Structural)]
pub enum Fault {
    /// The instruction pointer or a jump target lies outside the program.
    InvalidAddress,
    /// A push onto a full stack or a pop from an empty one.
    StackFault,
    /// Division by zero, or a shift by at least the register width.
    ArithmeticFault,
    /// A read was requested but no input is left.
    InputExhausted,
}

impl VMOp {
    /// Whether the instruction names `reg` as the register it stores into.
    /// (Every push, pop, call and return also moves the stack pointer, and
    /// every jump the instruction pointer; that is not meant here.)
    pub open spec fn stores_into(self, reg: VMReg) -> bool {
        match self {
            VMOp::Pop(r) | VMOp::Inp(r) => r == reg,
            VMOp::Add(l, _)
            | VMOp::Sub(l, _)
            | VMOp::Mul(l, _)
            | VMOp::Div(l, _)
            | VMOp::Xor(l, _)
            | VMOp::And(l, _)
            | VMOp::Or(l, _)
            | VMOp::Shl(l, _)
            | VMOp::Shr(l, _) => l == reg,
            _ => false,
        }
    }
}

} // verus!
