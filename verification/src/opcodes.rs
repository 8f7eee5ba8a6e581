//! The decoded instruction set: one variant per CHIP-8 instruction, with its
//! operand fields (register indices, 8-bit immediates, 12-bit addresses).

use vstd::prelude::*;

verus! {

/// A 12-bit memory address (only the low three nibbles are meaningful).
pub type Chip8Address = u16;

/// A register index; only 0x0..=0xF are valid.
pub type Chip8Register = u8;

/// An 8-bit immediate or register value.
pub type Chip8Value = u8;

/// One decoded CHIP-8 instruction together with its operands.
#[derive(Debug, PartialEq, Eq, Structural, Clone, Copy)]
pub enum Chip8Opcode {
    /* 0NNN */ Call(Chip8Address),
    /* 00E0 */ DisplayClear,
    /* 00EE */ ReturnFromSubroutine,
    /* 1NNN */ Goto(Chip8Address),
    /* 2NNN */ CallSub(Chip8Address),
    /* 3XNN */ SkipNextIfEqual(Chip8Register, Chip8Value),
    /* 4XNN */ SkipNextIfNotEqual(Chip8Register, Chip8Value),
    /* 5XY0 */ SkipNextIfRegistersEqual(Chip8Register, Chip8Register),
    /* 6XNN */ SetRegister(Chip8Register, Chip8Value),
    /* 7XNN */ IncrementRegister(Chip8Register, Chip8Value),
    /* 8XY0 */ SetRegisterToRegister(Chip8Register, Chip8Register),
    /* 8XY1 */ RegisterRegisterOr(Chip8Register, Chip8Register),
    /* 8XY2 */ RegisterRegisterAnd(Chip8Register, Chip8Register),
    /* 8XY3 */ RegisterRegisterXor(Chip8Register, Chip8Register),
    /* 8XY4 */ IncrementRegisterWithRegister(Chip8Register, Chip8Register),
    /* 8XY5 */ DecrementRegisterWithRegister(Chip8Register, Chip8Register),
    /* 8XY6 */ ShiftRegisterByRegister(Chip8Register, Chip8Register),
    /* 8XY7 */ YRegisterMinusXRegister(Chip8Register, Chip8Register),
    /* 8XYE */ LeftShiftRegisterByRegister(Chip8Register, Chip8Register),
    /* 9XY0 */ SkipNextIfRegistersNotEqual(Chip8Register, Chip8Register),
    /* ANNN */ SetIndexRegister(Chip8Address),
    /* BNNN */ JumpFromV0(Chip8Address),
    /* CXNN */ Random(Chip8Register, Chip8Value),
    /* DXYN */ Draw(Chip8Register, Chip8Register, u8),
    /* EX9E */ SkipNextIfKeyDown(Chip8Register),
    /* EXA1 */ SkipNextIfKeyUp(Chip8Register),
    /* FX07 */ ReadDelayTimer(Chip8Register),
    /* FX0A */ BlockOnKeyPress(Chip8Register),
    /* FX15 */ SetDelayTimer(Chip8Register),
    /* FX18 */ SetSoundTimer(Chip8Register),
    /* FX1E */ AddToIndexRegister(Chip8Register),
    /* FX29 */ UseSprite(Chip8Register),
    /* FX33 */ ReadRegisterAsBCD(Chip8Register),
    /* FX55 */ DumpRegisters(Chip8Register),
    /* FX65 */ FillRegisters(Chip8Register),
}

/// Operand well-formedness: every register index fits in 4 bits, every
/// address in 12 bits, and a sprite height in 4 bits. The decoder only ever
/// produces well-formed operations, since each operand comes from a nibble
/// or a 12-bit field of the instruction word.
pub open spec fn op_wf(op: Chip8Opcode) -> bool {
    match op {
        Chip8Opcode::Call(a) => a < 0x1000,
        Chip8Opcode::DisplayClear => true,
        Chip8Opcode::ReturnFromSubroutine => true,
        Chip8Opcode::Goto(a) => a < 0x1000,
        Chip8Opcode::CallSub(a) => a < 0x1000,
        Chip8Opcode::SkipNextIfEqual(x, _) => x < 16,
        Chip8Opcode::SkipNextIfNotEqual(x, _) => x < 16,
        Chip8Opcode::SkipNextIfRegistersEqual(x, y) => x < 16 && y < 16,
        Chip8Opcode::SetRegister(x, _) => x < 16,
        Chip8Opcode::IncrementRegister(x, _) => x < 16,
        Chip8Opcode::SetRegisterToRegister(x, y) => x < 16 && y < 16,
        Chip8Opcode::RegisterRegisterOr(x, y) => x < 16 && y < 16,
        Chip8Opcode::RegisterRegisterAnd(x, y) => x < 16 && y < 16,
        Chip8Opcode::RegisterRegisterXor(x, y) => x < 16 && y < 16,
        Chip8Opcode::IncrementRegisterWithRegister(x, y) => x < 16 && y < 16,
        Chip8Opcode::DecrementRegisterWithRegister(x, y) => x < 16 && y < 16,
        Chip8Opcode::ShiftRegisterByRegister(x, y) => x < 16 && y < 16,
        Chip8Opcode::YRegisterMinusXRegister(x, y) => x < 16 && y < 16,
        Chip8Opcode::LeftShiftRegisterByRegister(x, y) => x < 16 && y < 16,
        Chip8Opcode::SkipNextIfRegistersNotEqual(x, y) => x < 16 && y < 16,
        Chip8Opcode::SetIndexRegister(a) => a < 0x1000,
        Chip8Opcode::JumpFromV0(a) => a < 0x1000,
        Chip8Opcode::Random(x, _) => x < 16,
        Chip8Opcode::Draw(x, y, h) => x < 16 && y < 16 && h < 16,
        Chip8Opcode::SkipNextIfKeyDown(x) => x < 16,
        Chip8Opcode::SkipNextIfKeyUp(x) => x < 16,
        Chip8Opcode::ReadDelayTimer(x) => x < 16,
        Chip8Opcode::BlockOnKeyPress(x) => x < 16,
        Chip8Opcode::SetDelayTimer(x) => x < 16,
        Chip8Opcode::SetSoundTimer(x) => x < 16,
        Chip8Opcode::AddToIndexRegister(x) => x < 16,
        Chip8Opcode::UseSprite(x) => x < 16,
        Chip8Opcode::ReadRegisterAsBCD(x) => x < 16,
        Chip8Opcode::DumpRegisters(x) => x < 16,
        Chip8Opcode::FillRegisters(x) => x < 16,
    }
}

/// Why an emulation cycle failed. Both classes are fatal to the session: the
/// caller gets the failing instruction word or program counter and halts.
#[derive(Debug, PartialEq, Eq, Structural, Clone, Copy)]
pub enum EmulationError {
    /// The instruction word matches no known encoding, or fails a required
    /// sub-field constraint. Carries the offending instruction word.
    MalformedInstruction(u16),
    /// A return was executed with an empty call stack. Carries the program
    /// counter at the time of the failing return.
    StackUnderflow(u16),
}

} // verus!
