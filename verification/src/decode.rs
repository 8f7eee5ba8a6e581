//! Decoding a 16-bit instruction word into a structured operation. Dispatch
//! is by the top nibble, then where ambiguous by the bottom nibble or bottom
//! byte; anything outside the instruction table is a decode error, never a
//! silent default.

use vstd::prelude::*;
use crate::opcodes::{op_wf, Chip8Opcode, EmulationError};
use crate::state::ComputerState;

verus! {

/// What `decode` returns, for every instruction word: the operation of the
/// instruction table, or a decode error carrying the offending word.
pub open spec fn spec_decode(instruction: u16) -> Result<Chip8Opcode, EmulationError> {
    let top = instruction >> 12;
    let x = ((instruction >> 8) & 0xf) as u8;
    let y = ((instruction >> 4) & 0xf) as u8;
    let nn = (instruction & 0xff) as u8;
    let nnn = instruction & 0xfff;
    let low = instruction & 0xf;
    if top == 0x0 {
        if instruction == 0x00e0 {
            Ok(Chip8Opcode::DisplayClear)
        } else if instruction == 0x00ee {
            Ok(Chip8Opcode::ReturnFromSubroutine)
        } else {
            Ok(Chip8Opcode::Call(nnn))
        }
    } else if top == 0x1 {
        Ok(Chip8Opcode::Goto(nnn))
    } else if top == 0x2 {
        Ok(Chip8Opcode::CallSub(nnn))
    } else if top == 0x3 {
        Ok(Chip8Opcode::SkipNextIfEqual(x, nn))
    } else if top == 0x4 {
        Ok(Chip8Opcode::SkipNextIfNotEqual(x, nn))
    } else if top == 0x5 {
        if low == 0 {
            Ok(Chip8Opcode::SkipNextIfRegistersEqual(x, y))
        } else {
            Err(EmulationError::MalformedInstruction(instruction))
        }
    } else if top == 0x6 {
        Ok(Chip8Opcode::SetRegister(x, nn))
    } else if top == 0x7 {
        Ok(Chip8Opcode::IncrementRegister(x, nn))
    } else if top == 0x8 {
        if low == 0x0 {
            Ok(Chip8Opcode::SetRegisterToRegister(x, y))
        } else if low == 0x1 {
            Ok(Chip8Opcode::RegisterRegisterOr(x, y))
        } else if low == 0x2 {
            Ok(Chip8Opcode::RegisterRegisterAnd(x, y))
        } else if low == 0x3 {
            Ok(Chip8Opcode::RegisterRegisterXor(x, y))
        } else if low == 0x4 {
            Ok(Chip8Opcode::IncrementRegisterWithRegister(x, y))
        } else if low == 0x5 {
            Ok(Chip8Opcode::DecrementRegisterWithRegister(x, y))
        } else if low == 0x6 {
            Ok(Chip8Opcode::ShiftRegisterByRegister(x, y))
        } else if low == 0x7 {
            Ok(Chip8Opcode::YRegisterMinusXRegister(x, y))
        } else if low == 0xe {
            Ok(Chip8Opcode::LeftShiftRegisterByRegister(x, y))
        } else {
            Err(EmulationError::MalformedInstruction(instruction))
        }
    } else if top == 0x9 {
        if low == 0 {
            Ok(Chip8Opcode::SkipNextIfRegistersNotEqual(x, y))
        } else {
            Err(EmulationError::MalformedInstruction(instruction))
        }
    } else if top == 0xa {
        Ok(Chip8Opcode::SetIndexRegister(nnn))
    } else if top == 0xb {
        Ok(Chip8Opcode::JumpFromV0(nnn))
    } else if top == 0xc {
        Ok(Chip8Opcode::Random(x, nn))
    } else if top == 0xd {
        Ok(Chip8Opcode::Draw(x, y, (low as u8)))
    } else if top == 0xe {
        if nn == 0x9e {
            Ok(Chip8Opcode::SkipNextIfKeyDown(x))
        } else if nn == 0xa1 {
            Ok(Chip8Opcode::SkipNextIfKeyUp(x))
        } else {
            Err(EmulationError::MalformedInstruction(instruction))
        }
    } else {
        if nn == 0x07 {
            Ok(Chip8Opcode::ReadDelayTimer(x))
        } else if nn == 0x0a {
            Ok(Chip8Opcode::BlockOnKeyPress(x))
        } else if nn == 0x15 {
            Ok(Chip8Opcode::SetDelayTimer(x))
        } else if nn == 0x18 {
            Ok(Chip8Opcode::SetSoundTimer(x))
        } else if nn == 0x1e {
            Ok(Chip8Opcode::AddToIndexRegister(x))
        } else if nn == 0x29 {
            Ok(Chip8Opcode::UseSprite(x))
        } else if nn == 0x33 {
            Ok(Chip8Opcode::ReadRegisterAsBCD(x))
        } else if nn == 0x55 {
            Ok(Chip8Opcode::DumpRegisters(x))
        } else if nn == 0x65 {
            Ok(Chip8Opcode::FillRegisters(x))
        } else {
            Err(EmulationError::MalformedInstruction(instruction))
        }
    }
}

/// The operand fields of an instruction word fit their widths: nibbles are
/// below 16, the bottom byte below 256, a 12-bit address below 0x1000.
proof fn lemma_field_bounds(instruction: u16)
    by (bit_vector)
    ensures
        ((instruction >> 8) & 0xf) < 16,
        ((instruction >> 4) & 0xf) < 16,
        (instruction & 0xf) < 16,
        (instruction & 0xff) < 256,
        (instruction & 0xfff) < 0x1000,
{
}

impl ComputerState {
    /// Decode one instruction word, exactly as the instruction table reads:
    /// a structured operation for every legal encoding, a decode error for
    /// everything else. Every operation produced is well-formed.
    pub fn decode(&self, instruction: u16) -> (r: Result<Chip8Opcode, EmulationError>)
        ensures
            r == spec_decode(instruction),
            r matches Ok(op) ==> op_wf(op),
    {
        proof {
            lemma_field_bounds(instruction);
        }
        let top = instruction >> 12;
        let x = ((instruction >> 8) & 0xf) as u8;
        let y = ((instruction >> 4) & 0xf) as u8;
        let nn = (instruction & 0xff) as u8;
        let nnn = instruction & 0xfff;
        let low = instruction & 0xf;
        if top == 0x0 {
            if instruction == 0x00e0 {
                Ok(Chip8Opcode::DisplayClear)
            } else if instruction == 0x00ee {
                Ok(Chip8Opcode::ReturnFromSubroutine)
            } else {
                Ok(Chip8Opcode::Call(nnn))
            }
        } else if top == 0x1 {
            Ok(Chip8Opcode::Goto(nnn))
        } else if top == 0x2 {
            Ok(Chip8Opcode::CallSub(nnn))
        } else if top == 0x3 {
            Ok(Chip8Opcode::SkipNextIfEqual(x, nn))
        } else if top == 0x4 {
            Ok(Chip8Opcode::SkipNextIfNotEqual(x, nn))
        } else if top == 0x5 {
            if low == 0 {
                Ok(Chip8Opcode::SkipNextIfRegistersEqual(x, y))
            } else {
                Err(EmulationError::MalformedInstruction(instruction))
            }
        } else if top == 0x6 {
            Ok(Chip8Opcode::SetRegister(x, nn))
        } else if top == 0x7 {
            Ok(Chip8Opcode::IncrementRegister(x, nn))
        } else if top == 0x8 {
            if low == 0x0 {
                Ok(Chip8Opcode::SetRegisterToRegister(x, y))
            } else if low == 0x1 {
                Ok(Chip8Opcode::RegisterRegisterOr(x, y))
            } else if low == 0x2 {
                Ok(Chip8Opcode::RegisterRegisterAnd(x, y))
            } else if low == 0x3 {
                Ok(Chip8Opcode::RegisterRegisterXor(x, y))
            } else if low == 0x4 {
                Ok(Chip8Opcode::IncrementRegisterWithRegister(x, y))
            } else if low == 0x5 {
                Ok(Chip8Opcode::DecrementRegisterWithRegister(x, y))
            } else if low == 0x6 {
                Ok(Chip8Opcode::ShiftRegisterByRegister(x, y))
            } else if low == 0x7 {
                Ok(Chip8Opcode::YRegisterMinusXRegister(x, y))
            } else if low == 0xe {
                Ok(Chip8Opcode::LeftShiftRegisterByRegister(x, y))
            } else {
                Err(EmulationError::MalformedInstruction(instruction))
            }
        } else if top == 0x9 {
            if low == 0 {
                Ok(Chip8Opcode::SkipNextIfRegistersNotEqual(x, y))
            } else {
                Err(EmulationError::MalformedInstruction(instruction))
            }
        } else if top == 0xa {
            Ok(Chip8Opcode::SetIndexRegister(nnn))
        } else if top == 0xb {
            Ok(Chip8Opcode::JumpFromV0(nnn))
        } else if top == 0xc {
            Ok(Chip8Opcode::Random(x, nn))
        } else if top == 0xd {
            Ok(Chip8Opcode::Draw(x, y, low as u8))
        } else if top == 0xe {
            if nn == 0x9e {
                Ok(Chip8Opcode::SkipNextIfKeyDown(x))
            } else if nn == 0xa1 {
                Ok(Chip8Opcode::SkipNextIfKeyUp(x))
            } else {
                Err(EmulationError::MalformedInstruction(instruction))
            }
        } else {
            if nn == 0x07 {
                Ok(Chip8Opcode::ReadDelayTimer(x))
            } else if nn == 0x0a {
                Ok(Chip8Opcode::BlockOnKeyPress(x))
            } else if nn == 0x15 {
                Ok(Chip8Opcode::SetDelayTimer(x))
            } else if nn == 0x18 {
                Ok(Chip8Opcode::SetSoundTimer(x))
            } else if nn == 0x1e {
                Ok(Chip8Opcode::AddToIndexRegister(x))
            } else if nn == 0x29 {
                Ok(Chip8Opcode::UseSprite(x))
            } else if nn == 0x33 {
                Ok(Chip8Opcode::ReadRegisterAsBCD(x))
            } else if nn == 0x55 {
                Ok(Chip8Opcode::DumpRegisters(x))
            } else if nn == 0x65 {
                Ok(Chip8Opcode::FillRegisters(x))
            } else {
                Err(EmulationError::MalformedInstruction(instruction))
            }
        }
    }
}

} // verus!
