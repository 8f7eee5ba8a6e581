//! The general laws of the execution semantics, each stated over
//! `op_transition` and proved once and for all: flag-register behaviour of
//! the arithmetic and shift operations, the call/return round trip, and the
//! register dump/fill round trip.

use vstd::prelude::*;
use crate::execute::{mem_after_dump, op_transition, regs_after_fill};
use crate::opcodes::Chip8Opcode;
use crate::state::{masked_addr, view_wf, MachineView};

verus! {

/// Add-with-carry: for any two registers (the flag register aside as a
/// destination), the stored result is the 8-bit sum modulo 256 and the flag
/// register becomes 1 exactly when the unsigned sum exceeds 255.
pub proof fn lemma_add_with_carry(s: MachineView, x: u8, y: u8)
    requires
        view_wf(s),
        x < 16,
        y < 16,
        x != 0xf,
    ensures
        ({
            let a = s.registers[x as int];
            let b = s.registers[y as int];
            let t = op_transition(s, Chip8Opcode::IncrementRegisterWithRegister(x, y), 0);
            &&& t is Some
            &&& t.unwrap().registers[x as int] == (a + b) % 256
            &&& t.unwrap().registers[15] == (if a + b > 255 {
                1u8
            } else {
                0u8
            })
        }),
{
    let a = s.registers[x as int];
    let b = s.registers[y as int];
    if a + b > 255 {
        assert((a + b) % 256 == a + b - 256) by (nonlinear_arith)
            requires
                256 <= a + b < 512,
        ;
    } else {
        assert((a + b) % 256 == a + b) by (nonlinear_arith)
            requires
                0 <= a + b < 256,
        ;
    }
}

/// Subtract-with-borrow: the stored result is the 8-bit difference modulo
/// 256 and the flag register becomes 1 exactly when no borrow occurs, that
/// is when the minuend is at least the subtrahend.
pub proof fn lemma_subtract_with_borrow(s: MachineView, x: u8, y: u8)
    requires
        view_wf(s),
        x < 16,
        y < 16,
        x != 0xf,
    ensures
        ({
            let a = s.registers[x as int];
            let b = s.registers[y as int];
            let t = op_transition(s, Chip8Opcode::DecrementRegisterWithRegister(x, y), 0);
            &&& t is Some
            &&& t.unwrap().registers[x as int] == (a - b) % 256
            &&& t.unwrap().registers[15] == (if a >= b {
                1u8
            } else {
                0u8
            })
        }),
{
    let a = s.registers[x as int];
    let b = s.registers[y as int];
    if a - b < 0 {
        assert((a - b) % 256 == a - b + 256) by (nonlinear_arith)
            requires
                -256 <= a - b < 0,
        ;
    } else {
        assert((a - b) % 256 == a - b) by (nonlinear_arith)
            requires
                0 <= a - b < 256,
        ;
    }
}

/// Reverse subtract: the stored result is the reversed 8-bit difference
/// modulo 256 and the flag register becomes 1 exactly when no borrow occurs.
pub proof fn lemma_reverse_subtract(s: MachineView, x: u8, y: u8)
    requires
        view_wf(s),
        x < 16,
        y < 16,
        x != 0xf,
    ensures
        ({
            let a = s.registers[x as int];
            let b = s.registers[y as int];
            let t = op_transition(s, Chip8Opcode::YRegisterMinusXRegister(x, y), 0);
            &&& t is Some
            &&& t.unwrap().registers[x as int] == (b - a) % 256
            &&& t.unwrap().registers[15] == (if b >= a {
                1u8
            } else {
                0u8
            })
        }),
{
    let a = s.registers[x as int];
    let b = s.registers[y as int];
    if b - a < 0 {
        assert((b - a) % 256 == b - a + 256) by (nonlinear_arith)
            requires
                -256 <= b - a < 0,
        ;
    } else {
        assert((b - a) % 256 == b - a) by (nonlinear_arith)
            requires
                0 <= b - a < 256,
        ;
    }
}

/// Shift right: the flag register receives bit 0 of the source register's
/// pre-shift value, and the destination (the flag register aside) receives
/// the value shifted right once.
pub proof fn lemma_shift_right_flag(s: MachineView, x: u8, y: u8)
    requires
        view_wf(s),
        x < 16,
        y < 16,
    ensures
        ({
            let v = s.registers[y as int];
            let t = op_transition(s, Chip8Opcode::ShiftRegisterByRegister(x, y), 0);
            &&& t is Some
            &&& t.unwrap().registers[15] == (v & 1)
            &&& (x != 0xf ==> t.unwrap().registers[x as int] == (v >> 1))
        }),
{
}

/// Shift left: the flag register receives bit 7 of the source register's
/// pre-shift value (`v >> 7` for a byte), and both named registers (the flag
/// register aside) receive the value shifted left once.
pub proof fn lemma_shift_left_flag(s: MachineView, x: u8, y: u8)
    requires
        view_wf(s),
        x < 16,
        y < 16,
    ensures
        ({
            let v = s.registers[y as int];
            let t = op_transition(s, Chip8Opcode::LeftShiftRegisterByRegister(x, y), 0);
            &&& t is Some
            &&& t.unwrap().registers[15] == (v >> 7)
            &&& (x != 0xf && y != 0xf ==> t.unwrap().registers[y as int] == (v << 1))
        }),
{
}

/// Calling a subroutine and then returning restores the program counter to
/// exactly its value at the moment of the call (the address the call pushed)
/// and leaves the stack exactly as it was before the call.
pub proof fn lemma_call_then_return(s: MachineView, address: u16)
    requires
        view_wf(s),
    ensures
        ({
            let after_call = op_transition(s, Chip8Opcode::CallSub(address), 0).unwrap();
            let ret = op_transition(after_call, Chip8Opcode::ReturnFromSubroutine, 0);
            &&& op_transition(s, Chip8Opcode::CallSub(address), 0) is Some
            &&& ret is Some
            &&& ret.unwrap().program_counter == s.program_counter
            &&& ret.unwrap().stack == s.stack
        }),
{
    let after_call = op_transition(s, Chip8Opcode::CallSub(address), 0).unwrap();
    assert(after_call.stack.drop_last() =~= s.stack);
}

/// Memory is never shortened by a register dump.
proof fn lemma_dump_len(mem: Seq<u8>, regs: Seq<u8>, index: u16, k: int)
    requires
        0 <= k <= 16,
        mem.len() == 4096,
    ensures
        mem_after_dump(mem, regs, index, k).len() == 4096,
    decreases k,
{
    if k > 0 {
        lemma_dump_len(mem, regs, index, k - 1);
    }
}

/// After dumping registers `0 .. k`, memory holds register `j` at the masked
/// address `index + j`, for every `j` below `k`.
proof fn lemma_dump_at(mem: Seq<u8>, regs: Seq<u8>, index: u16, k: int, j: int)
    requires
        0 <= j < k <= 16,
        mem.len() == 4096,
    ensures
        mem_after_dump(mem, regs, index, k)[masked_addr(index, j)] == regs[j],
    decreases k,
{
    lemma_dump_len(mem, regs, index, k - 1);
    if j < k - 1 {
        lemma_dump_at(mem, regs, index, k - 1, j);
    }
}

/// After filling registers `0 .. k`, register `j` holds the byte at the
/// masked address `index + j` if `j` is below `k`, and its old value
/// otherwise.
proof fn lemma_fill_at(regs: Seq<u8>, mem: Seq<u8>, index: u16, k: int, j: int)
    requires
        0 <= k <= 16,
        0 <= j < 16,
        regs.len() == 16,
    ensures
        j < k ==> regs_after_fill(regs, mem, index, k)[j] == mem[masked_addr(index, j)],
        j >= k ==> regs_after_fill(regs, mem, index, k)[j] == regs[j],
    decreases k,
{
    if k > 0 {
        lemma_fill_len(regs, mem, index, k - 1);
        lemma_fill_at(regs, mem, index, k - 1, j);
    }
}

/// A register fill never changes the register bank's size.
proof fn lemma_fill_len(regs: Seq<u8>, mem: Seq<u8>, index: u16, k: int)
    requires
        0 <= k <= 16,
        regs.len() == 16,
    ensures
        regs_after_fill(regs, mem, index, k).len() == 16,
    decreases k,
{
    if k > 0 {
        lemma_fill_len(regs, mem, index, k - 1);
    }
}

/// Dumping registers `0..=n` and then filling `0..=n` from the same index
/// register round-trips registers `0..=n` exactly; the dump leaves every
/// register untouched, and registers above `n` are untouched by the fill as
/// well.
pub proof fn lemma_dump_then_fill(s: MachineView, n: u8)
    requires
        view_wf(s),
        n < 16,
    ensures
        ({
            let after_dump = op_transition(s, Chip8Opcode::DumpRegisters(n), 0).unwrap();
            let after_fill = op_transition(after_dump, Chip8Opcode::FillRegisters(n), 0).unwrap();
            &&& after_dump.registers == s.registers
            &&& forall|r: int| 0 <= r <= n ==> after_fill.registers[r] == s.registers[r]
            &&& forall|r: int| n < r < 16 ==> after_fill.registers[r] == s.registers[r]
        }),
{
    let after_dump = op_transition(s, Chip8Opcode::DumpRegisters(n), 0).unwrap();
    let after_fill = op_transition(after_dump, Chip8Opcode::FillRegisters(n), 0).unwrap();
    assert forall|r: int| 0 <= r <= n implies after_fill.registers[r] == s.registers[r] by {
        lemma_fill_at(s.registers, after_dump.memory, s.index, n as int + 1, r);
        lemma_dump_at(s.memory, s.registers, s.index, n as int + 1, r);
    }
    assert forall|r: int| n < r < 16 implies after_fill.registers[r] == s.registers[r] by {
        lemma_fill_at(s.registers, after_dump.memory, s.index, n as int + 1, r);
    }
}

} // verus!
