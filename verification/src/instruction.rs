use vstd::prelude::*;

use crate::errors::InterpretationError;

verus! {

/// The instruction set of the virtual machine, one variant per opcode.
/// `Liv` stores the top of the stack into a variable slot, `Lfv` loads a
/// slot back onto the stack.
#[derive(Debug, Clone, Copy, PartialEq, Eq, Structural)]
pub enum Instruction {
    Nop,
    Push,
    Add,
    Sub,
    Mul,
    Div,
    Neg,
    Eq,
    Neq,
    Gr,
    Ls,
    Ge,
    Le,
    Jmp,
    Jf,
    Jback,
    Bin,
    Liv,
    Lfv,
    Dbg,
    Hlt,
}

/// The committed opcode table: how a single byte decodes, or fails to.
pub open spec fn spec_decode(byte: u8) -> Result<Instruction, InterpretationError> {
    match byte {
        0x00 => Ok(Instruction::Nop),
        0x01 => Ok(Instruction::Push),
        0x02 => Ok(Instruction::Add),
        0x03 => Ok(Instruction::Sub),
        0x04 => Ok(Instruction::Mul),
        0x05 => Ok(Instruction::Div),
        0x06 => Ok(Instruction::Neg),
        0x07 => Ok(Instruction::Jmp),
        0x08 => Ok(Instruction::Eq),
        0x09 => Ok(Instruction::Neq),
        0x0a => Ok(Instruction::Gr),
        0x0b => Ok(Instruction::Ls),
        0x0c => Ok(Instruction::Ge),
        0x0d => Ok(Instruction::Le),
        0x0f => Ok(Instruction::Jf),
        0x10 => Ok(Instruction::Jback),
        0x11 => Ok(Instruction::Bin),
        0x12 => Ok(Instruction::Liv),
        0x13 => Ok(Instruction::Lfv),
        0xfe => Ok(Instruction::Dbg),
        0xff => Ok(Instruction::Hlt),
        _ => Err(InterpretationError::OpcodeError),
    }
}

impl Instruction {
    /// Decodes one opcode byte; an unassigned byte is an `OpcodeError`.
    pub fn try_from(byte: u8) -> (r: Result<Self, InterpretationError>)
        ensures
            r == spec_decode(byte),
    {
        match byte {
            0x00 => Ok(Instruction::Nop),
            0x01 => Ok(Instruction::Push),
            0x02 => Ok(Instruction::Add),
            0x03 => Ok(Instruction::Sub),
            0x04 => Ok(Instruction::Mul),
            0x05 => Ok(Instruction::Div),
            0x06 => Ok(Instruction::Neg),
            0x07 => Ok(Instruction::Jmp),
            0x08 => Ok(Instruction::Eq),
            0x09 => Ok(Instruction::Neq),
            0x0a => Ok(Instruction::Gr),
            0x0b => Ok(Instruction::Ls),
            0x0c => Ok(Instruction::Ge),
            0x0d => Ok(Instruction::Le),
            0x0f => Ok(Instruction::Jf),
            0x10 => Ok(Instruction::Jback),
            0x11 => Ok(Instruction::Bin),
            0x12 => Ok(Instruction::Liv),
            0x13 => Ok(Instruction::Lfv),
            0xfe => Ok(Instruction::Dbg),
            0xff => Ok(Instruction::Hlt),
            _ => Err(InterpretationError::OpcodeError),
        }
    }
}

} // verus!
