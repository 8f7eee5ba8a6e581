//! Execution semantics: what each decoded operation does to the machine
//! state, given by the spec function `op_transition`, and the verified
//! executor and fetch/execute cycle that realise it.

use vstd::prelude::*;
use crate::decode::spec_decode;
use crate::opcodes::{op_wf, Chip8Opcode, EmulationError};
use crate::state::{
    masked_addr, masked_index, view_wf, with_delay, with_gfx, with_index, with_mem, with_pc,
    with_regs, with_sound, with_stack, with_waiting, wrap_add16, wrap_add8, wrap_sub8,
    ComputerState, MachineView,
};

verus! {

// ---------------------------------------------------------------------------
// Sprite drawing, one 8-pixel row at a time.
// ---------------------------------------------------------------------------

/// Bit `i` (0 = leftmost pixel) of a sprite row byte.
pub open spec fn row_bit(row: u8, i: int) -> u8 {
    (row >> ((7 - i) as u8)) & 1
}

/// The framebuffer column of pixel `i` of a row drawn at `x`: columns wrap
/// at the 64-pixel boundary.
pub open spec fn row_col(x: u8, i: int) -> int {
    let xr = (x % 64) as int;
    if xr + i < 64 {
        xr + i
    } else {
        xr + i - 64
    }
}

/// The framebuffer cell index of pixel `i` of a row drawn at `(x, y)`.
pub open spec fn row_target(x: u8, y: u8, i: int) -> int {
    y * 64 + row_col(x, i)
}

/// The framebuffer after the first `k` pixels of one sprite row have been
/// XORed on.
pub open spec fn gfx_after_row(gfx: Seq<u8>, x: u8, y: u8, row: u8, k: int) -> Seq<u8>
    decreases k,
{
    if k <= 0 {
        gfx
    } else {
        let prev = gfx_after_row(gfx, x, y, row, k - 1);
        let t = row_target(x, y, k - 1);
        prev.update(t, prev[t] ^ row_bit(row, k - 1))
    }
}

/// Whether XORing one sprite row onto `gfx` turns any pixel from set to
/// unset: some pixel of the row is 1 where the framebuffer already holds 1.
pub open spec fn row_collision(gfx: Seq<u8>, x: u8, y: u8, row: u8) -> bool {
    exists|i: int| 0 <= i < 8 && gfx[row_target(x, y, i)] == 1 && row_bit(row, i) == 1
}

/// The row of the framebuffer that sprite row `r` lands on, wrapping at 32.
pub open spec fn row_y(vy: u8, r: int) -> u8 {
    ((vy + r) % 32) as u8
}

/// Sprite row `r`, read from memory at the index register plus `r`, masked.
pub open spec fn sprite_byte(mem: Seq<u8>, index: u16, r: int) -> u8 {
    mem[masked_addr(index, r)]
}

/// The framebuffer after the first `k` rows of a sprite have been drawn.
pub open spec fn gfx_after_sprite(
    gfx: Seq<u8>,
    mem: Seq<u8>,
    index: u16,
    vx: u8,
    vy: u8,
    k: int,
) -> Seq<u8>
    decreases k,
{
    if k <= 0 {
        gfx
    } else {
        let prev = gfx_after_sprite(gfx, mem, index, vx, vy, k - 1);
        gfx_after_row(prev, vx, row_y(vy, k - 1), sprite_byte(mem, index, k - 1), 8)
    }
}

/// Whether drawing the first `k` rows of a sprite turns any pixel from set
/// to unset — the collision signal reported in the flag register.
pub open spec fn sprite_collision(
    gfx: Seq<u8>,
    mem: Seq<u8>,
    index: u16,
    vx: u8,
    vy: u8,
    k: int,
) -> bool
    decreases k,
{
    if k <= 0 {
        false
    } else {
        sprite_collision(gfx, mem, index, vx, vy, k - 1) || row_collision(
            gfx_after_sprite(gfx, mem, index, vx, vy, k - 1),
            vx,
            row_y(vy, k - 1),
            sprite_byte(mem, index, k - 1),
        )
    }
}

// ---------------------------------------------------------------------------
// Register dump and fill.
// ---------------------------------------------------------------------------

/// Memory after registers `0 .. k` have been stored at the index register.
pub open spec fn mem_after_dump(mem: Seq<u8>, regs: Seq<u8>, index: u16, k: int) -> Seq<u8>
    decreases k,
{
    if k <= 0 {
        mem
    } else {
        mem_after_dump(mem, regs, index, k - 1).update(masked_addr(index, k - 1), regs[k - 1])
    }
}

/// Registers after `0 .. k` have been loaded from memory at the index
/// register.
pub open spec fn regs_after_fill(regs: Seq<u8>, mem: Seq<u8>, index: u16, k: int) -> Seq<u8>
    decreases k,
{
    if k <= 0 {
        regs
    } else {
        regs_after_fill(regs, mem, index, k - 1).update(k - 1, mem[masked_addr(index, k - 1)])
    }
}

// ---------------------------------------------------------------------------
// The transition relation.
// ---------------------------------------------------------------------------

/// What executing one well-formed operation does to a machine state, as a
/// function of the state, the operation, and — for the random-mask operation
/// only — the byte the generator produced. `None` is the one fatal execution
/// outcome: a return on an empty stack.
pub open spec fn op_transition(s: MachineView, op: Chip8Opcode, rand_byte: u8) -> Option<
    MachineView,
> {
    match op {
        Chip8Opcode::Call(a) => Some(
            with_pc(with_stack(s, s.stack.push(s.program_counter)), a),
        ),
        Chip8Opcode::DisplayClear => Some(with_gfx(s, Seq::new(2048, |i: int| 0u8))),
        Chip8Opcode::ReturnFromSubroutine => if s.stack.len() == 0 {
            None
        } else {
            Some(with_pc(with_stack(s, s.stack.drop_last()), s.stack.last()))
        },
        Chip8Opcode::Goto(a) => Some(with_pc(s, a)),
        Chip8Opcode::CallSub(a) => Some(
            with_pc(with_stack(s, s.stack.push(s.program_counter)), a),
        ),
        Chip8Opcode::SkipNextIfEqual(x, v) => Some(
            if s.registers[x as int] == v {
                with_pc(s, wrap_add16(s.program_counter, 2))
            } else {
                s
            },
        ),
        Chip8Opcode::SkipNextIfNotEqual(x, v) => Some(
            if s.registers[x as int] != v {
                with_pc(s, wrap_add16(s.program_counter, 2))
            } else {
                s
            },
        ),
        Chip8Opcode::SkipNextIfRegistersEqual(x, y) => Some(
            if s.registers[x as int] == s.registers[y as int] {
                with_pc(s, wrap_add16(s.program_counter, 2))
            } else {
                s
            },
        ),
        Chip8Opcode::SetRegister(x, v) => Some(with_regs(s, s.registers.update(x as int, v))),
        Chip8Opcode::IncrementRegister(x, v) => Some(
            with_regs(s, s.registers.update(x as int, wrap_add8(s.registers[x as int], v))),
        ),
        Chip8Opcode::SetRegisterToRegister(x, y) => Some(
            with_regs(s, s.registers.update(x as int, s.registers[y as int])),
        ),
        Chip8Opcode::RegisterRegisterOr(x, y) => Some(
            with_regs(
                s,
                s.registers.update(x as int, s.registers[x as int] | s.registers[y as int]),
            ),
        ),
        Chip8Opcode::RegisterRegisterAnd(x, y) => Some(
            with_regs(
                s,
                s.registers.update(x as int, s.registers[x as int] & s.registers[y as int]),
            ),
        ),
        Chip8Opcode::RegisterRegisterXor(x, y) => Some(
            with_regs(
                s,
                s.registers.update(x as int, s.registers[x as int] ^ s.registers[y as int]),
            ),
        ),
        Chip8Opcode::IncrementRegisterWithRegister(x, y) => {
            let a = s.registers[x as int];
            let b = s.registers[y as int];
            let flag: u8 = if a + b > 255 {
                1
            } else {
                0
            };
            Some(with_regs(s, s.registers.update(x as int, wrap_add8(a, b)).update(15, flag)))
        },
        Chip8Opcode::DecrementRegisterWithRegister(x, y) => {
            let a = s.registers[x as int];
            let b = s.registers[y as int];
            let flag: u8 = if a >= b {
                1
            } else {
                0
            };
            Some(with_regs(s, s.registers.update(x as int, wrap_sub8(a, b)).update(15, flag)))
        },
        Chip8Opcode::ShiftRegisterByRegister(x, y) => {
            let v = s.registers[y as int];
            Some(with_regs(s, s.registers.update(x as int, v >> 1).update(15, v & 1)))
        },
        Chip8Opcode::YRegisterMinusXRegister(x, y) => {
            let a = s.registers[x as int];
            let b = s.registers[y as int];
            let flag: u8 = if b >= a {
                1
            } else {
                0
            };
            Some(with_regs(s, s.registers.update(x as int, wrap_sub8(b, a)).update(15, flag)))
        },
        Chip8Opcode::LeftShiftRegisterByRegister(x, y) => {
            let v = s.registers[y as int];
            let shifted = v << 1;
            Some(
                with_regs(
                    s,
                    s.registers.update(x as int, shifted).update(y as int, shifted).update(
                        15,
                        v >> 7,
                    ),
                ),
            )
        },
        Chip8Opcode::SkipNextIfRegistersNotEqual(x, y) => Some(
            if s.registers[x as int] != s.registers[y as int] {
                with_pc(s, wrap_add16(s.program_counter, 2))
            } else {
                s
            },
        ),
        Chip8Opcode::SetIndexRegister(a) => Some(with_index(s, a)),
        Chip8Opcode::JumpFromV0(a) => Some(
            with_pc(s, wrap_add16(a, s.registers[0] as u16)),
        ),
        Chip8Opcode::Random(x, mask) => Some(
            with_regs(s, s.registers.update(x as int, rand_byte & mask)),
        ),
        Chip8Opcode::Draw(x, y, h) => {
            let regs0 = s.registers.update(15, 0u8);
            let vx = regs0[x as int];
            let vy = regs0[y as int];
            let flag: u8 = if sprite_collision(s.gfx, s.memory, s.index, vx, vy, h as int) {
                1
            } else {
                0
            };
            Some(
                with_gfx(
                    with_regs(s, regs0.update(15, flag)),
                    gfx_after_sprite(s.gfx, s.memory, s.index, vx, vy, h as int),
                ),
            )
        },
        Chip8Opcode::SkipNextIfKeyDown(x) => Some(
            if s.keys[(s.registers[x as int] % 16) as int] {
                with_pc(s, wrap_add16(s.program_counter, 2))
            } else {
                s
            },
        ),
        Chip8Opcode::SkipNextIfKeyUp(x) => Some(
            if !s.keys[(s.registers[x as int] % 16) as int] {
                with_pc(s, wrap_add16(s.program_counter, 2))
            } else {
                s
            },
        ),
        Chip8Opcode::ReadDelayTimer(x) => Some(
            with_regs(s, s.registers.update(x as int, s.delay_timer)),
        ),
        Chip8Opcode::BlockOnKeyPress(x) => Some(with_waiting(s, x as usize)),
        Chip8Opcode::SetDelayTimer(x) => Some(with_delay(s, s.registers[x as int])),
        Chip8Opcode::SetSoundTimer(x) => Some(with_sound(s, s.registers[x as int])),
        Chip8Opcode::AddToIndexRegister(x) => Some(
            with_index(s, wrap_add16(s.index, s.registers[x as int] as u16)),
        ),
        Chip8Opcode::UseSprite(x) => Some(
            with_index(s, (5 * s.registers[x as int] as u16) as u16),
        ),
        Chip8Opcode::ReadRegisterAsBCD(x) => {
            let v = s.registers[x as int];
            Some(
                with_mem(
                    s,
                    s.memory.update(masked_addr(s.index, 0), v / 100).update(
                        masked_addr(s.index, 1),
                        (v / 10) % 10,
                    ).update(masked_addr(s.index, 2), v % 10),
                ),
            )
        },
        Chip8Opcode::DumpRegisters(n) => Some(
            with_mem(s, mem_after_dump(s.memory, s.registers, s.index, n as int + 1)),
        ),
        Chip8Opcode::FillRegisters(n) => Some(
            with_regs(s, regs_after_fill(s.registers, s.memory, s.index, n as int + 1)),
        ),
    }
}

/// The instruction word exposed at the program counter: two consecutive
/// memory bytes, big-endian, addresses masked to the 4096-byte space.
pub open spec fn fetch_word(mem: Seq<u8>, pc: u16) -> u16 {
    ((mem[masked_addr(pc, 0)] as u16) << 8) | (mem[masked_addr(pc, 1)] as u16)
}

// ---------------------------------------------------------------------------
// Bit-level facts the proofs lean on.
// ---------------------------------------------------------------------------

/// Single-bit arithmetic: an extracted bit is 0 or 1, XOR keeps cells
/// monochrome, and XORing to 0 from a set cell means both inputs were 1.
proof fn lemma_bit_ops()
    by (bit_vector)
    ensures
        forall|b: u8, k: u8| #[trigger] ((b >> k) & 1) <= 1,
        forall|a: u8, b: u8| a <= 1 && b <= 1 ==> #[trigger] (a ^ b) <= 1,
        forall|a: u8, b: u8|
            a <= 1 && b <= 1 ==> (((#[trigger] (a ^ b)) == 0 && a > 0) <==> (a == 1 && b == 1)),
{
}

// ---------------------------------------------------------------------------
// Helpers about the sprite specs.
// ---------------------------------------------------------------------------

/// Distinct pixels of one row land on distinct framebuffer cells.
proof fn lemma_row_targets_distinct(x: u8, y: u8, i: int, j: int)
    requires
        0 <= i < 8,
        0 <= j < 8,
        i != j,
    ensures
        row_target(x, y, i) != row_target(x, y, j),
{
}

/// Every pixel of a row drawn at `y < 32` lands inside the framebuffer.
proof fn lemma_row_target_in_range(x: u8, y: u8, i: int)
    requires
        0 <= i < 8,
        y < 32,
    ensures
        0 <= row_target(x, y, i) < 2048,
{
}

/// Drawing the first `k` pixels of a row changes nothing outside their
/// target cells, and keeps the framebuffer's length.
proof fn lemma_gfx_after_row_frame(gfx: Seq<u8>, x: u8, y: u8, row: u8, k: int, t: int)
    requires
        0 <= k <= 8,
        0 <= t < gfx.len(),
        gfx.len() == 2048,
        y < 32,
        forall|i: int| 0 <= i < k ==> row_target(x, y, i) != t,
    ensures
        gfx_after_row(gfx, x, y, row, k).len() == gfx.len(),
        gfx_after_row(gfx, x, y, row, k)[t] == gfx[t],
    decreases k,
{
    if k > 0 {
        lemma_row_target_in_range(x, y, k - 1);
        lemma_gfx_after_row_frame(gfx, x, y, row, k - 1, t);
    }
}

impl ComputerState {
    /// XOR one 8-pixel sprite row onto the framebuffer at `(x, y)`, columns
    /// wrapping at 64. Returns whether any pixel went from set to unset.
    pub fn write_pixel_row(&mut self, x: u8, y: u8, row: u8) -> (collided: bool)
        requires
            old(self).wf(),
            y < 32,
        ensures
            final(self).wf(),
            final(self)@ == with_gfx(old(self)@, gfx_after_row(old(self)@.gfx, x, y, row, 8)),
            collided == row_collision(old(self)@.gfx, x, y, row),
    {
        proof {
            lemma_bit_ops();
        }
        let ghost orig = self@;
        let xr = x % 64;
        let mut collided = false;
        let mut i: usize = 0;
        while i < 8
            invariant
                i <= 8,
                xr == x % 64,
                y < 32,
                view_wf(orig),
                view_wf(self@),
                self@ == with_gfx(orig, gfx_after_row(orig.gfx, x, y, row, i as int)),
                collided <==> (exists|j: int|
                    0 <= j < i && orig.gfx[row_target(x, y, j)] == 1 && row_bit(row, j) == 1),
                forall|b: u8, k: u8| #[trigger] ((b >> k) & 1) <= 1,
                forall|a: u8, b: u8| a <= 1 && b <= 1 ==> #[trigger] (a ^ b) <= 1,
                forall|a: u8, b: u8|
                    a <= 1 && b <= 1 ==> (((#[trigger] (a ^ b)) == 0 && a > 0) <==> (a == 1 && b
                        == 1)),
            decreases 8 - i,
        {
            let shift: u8 = (7 - i) as u8;
            let bit = (row >> shift) & 1;
            let mut col = xr as usize + i;
            if col >= 64 {
                col = col - 64;
            }
            let target = (y as usize) * 64 + col;
            proof {
                assert(bit == row_bit(row, i as int));
                assert(col == row_col(x, i as int));
                assert(target == row_target(x, y, i as int));
                lemma_row_target_in_range(x, y, i as int);
                assert forall|j: int| 0 <= j < i as int implies row_target(x, y, j) != target by {
                    lemma_row_targets_distinct(x, y, j, i as int);
                }
                assert(self@.gfx[target as int] == orig.gfx[target as int]) by {
                    lemma_gfx_after_row_frame(orig.gfx, x, y, row, i as int, target as int);
                }
            }
            let cell = self.gfx[target];
            let pixel = cell ^ bit;
            if pixel == 0 && cell > 0 {
                collided = true;
            }
            self.gfx[target] = pixel;
            proof {
                assert(self@.gfx =~= gfx_after_row(orig.gfx, x, y, row, i as int + 1));
            }
            i = i + 1;
        }
        proof {
            assert(collided == row_collision(orig.gfx, x, y, row));
        }
        collided
    }

    /// Zero every framebuffer cell.
    fn exec_display_clear(&mut self)
        requires
            old(self).wf(),
        ensures
            final(self).wf(),
            final(self)@ == with_gfx(old(self)@, Seq::new(2048, |i: int| 0u8)),
    {
        let ghost orig = self@;
        let mut i: usize = 0;
        while i < 2048
            invariant
                i <= 2048,
                view_wf(orig),
                self@ == with_gfx(orig, self@.gfx),
                self@.gfx.len() == 2048,
                forall|j: int| 0 <= j < i ==> self@.gfx[j] == 0u8,
                forall|j: int| i <= j < 2048 ==> self@.gfx[j] == orig.gfx[j],
            decreases 2048 - i,
        {
            self.gfx[i] = 0;
            i = i + 1;
        }
        proof {
            assert(self@.gfx =~= Seq::new(2048, |i: int| 0u8));
        }
    }

    /// Draw a sprite of `height` rows read from memory at the index
    /// register, XORed on at the coordinates held by two registers, and
    /// report collisions in the flag register.
    fn exec_draw(&mut self, x_reg: u8, y_reg: u8, height: u8)
        requires
            old(self).wf(),
            x_reg < 16,
            y_reg < 16,
            height < 16,
        ensures
            final(self).wf(),
            Some(final(self)@) == op_transition(
                old(self)@,
                Chip8Opcode::Draw(x_reg, y_reg, height),
                0,
            ),
    {
        let ghost orig = self@;
        self.set_register(0xf, 0);
        let vx = self.get_register(x_reg);
        let vy = self.get_register(y_reg);
        let ghost regs0 = orig.registers.update(15, 0u8);
        let mut row: u8 = 0;
        while row < height
            invariant
                row <= height,
                height < 16,
                x_reg < 16,
                y_reg < 16,
                view_wf(orig),
                view_wf(self@),
                vx == regs0[x_reg as int],
                vy == regs0[y_reg as int],
                regs0 == orig.registers.update(15, 0u8),
                self@.memory == orig.memory,
                self@.index == orig.index,
                self@.gfx == gfx_after_sprite(orig.gfx, orig.memory, orig.index, vx, vy, row as int),
                self@ == with_gfx(
                    with_regs(
                        orig,
                        regs0.update(
                            15,
                            if sprite_collision(
                                orig.gfx,
                                orig.memory,
                                orig.index,
                                vx,
                                vy,
                                row as int,
                            ) {
                                1u8
                            } else {
                                0u8
                            },
                        ),
                    ),
                    self@.gfx,
                ),
            decreases height - row,
        {
            let addr = masked_index(self.index, row as u16);
            let source = self.memory[addr];
            let y = ((vy as u16 + row as u16) % 32) as u8;
            proof {
                assert(source == sprite_byte(orig.memory, orig.index, row as int));
                assert(y == row_y(vy, row as int));
            }
            let collided = self.write_pixel_row(vx, y, source);
            if collided {
                self.set_register(0xf, 1);
            }
            proof {
                assert(self@.gfx == gfx_after_sprite(
                    orig.gfx,
                    orig.memory,
                    orig.index,
                    vx,
                    vy,
                    row as int + 1,
                ));
                assert(self@.registers =~= regs0.update(
                    15,
                    if sprite_collision(
                        orig.gfx,
                        orig.memory,
                        orig.index,
                        vx,
                        vy,
                        row as int + 1,
                    ) {
                        1u8
                    } else {
                        0u8
                    },
                ));
            }
            row = row + 1;
        }
    }

    /// Store registers `0..=stop` into memory starting at the index
    /// register; the registers themselves are unchanged.
    fn exec_dump_registers(&mut self, stop: u8)
        requires
            old(self).wf(),
            stop < 16,
        ensures
            final(self).wf(),
            final(self)@ == with_mem(
                old(self)@,
                mem_after_dump(old(self)@.memory, old(self)@.registers, old(self)@.index, stop as int
                    + 1),
            ),
    {
        let ghost orig = self@;
        let mut r: usize = 0;
        while r <= stop as usize
            invariant
                r <= stop as usize + 1,
                stop < 16,
                view_wf(orig),
                view_wf(self@),
                self@ == with_mem(
                    orig,
                    mem_after_dump(orig.memory, orig.registers, orig.index, r as int),
                ),
            decreases stop as int + 1 - r,
        {
            let value = self.get_register(r as u8);
            let a = masked_index(self.index, r as u16);
            self.memory[a] = value;
            r = r + 1;
        }
    }

    /// Load registers `0..=stop` from memory starting at the index register;
    /// memory is unchanged.
    fn exec_fill_registers(&mut self, stop: u8)
        requires
            old(self).wf(),
            stop < 16,
        ensures
            final(self).wf(),
            final(self)@ == with_regs(
                old(self)@,
                regs_after_fill(old(self)@.registers, old(self)@.memory, old(self)@.index, stop as int
                    + 1),
            ),
    {
        let ghost orig = self@;
        let mut r: usize = 0;
        while r <= stop as usize
            invariant
                r <= stop as usize + 1,
                stop < 16,
                view_wf(orig),
                view_wf(self@),
                self@ == with_regs(
                    orig,
                    regs_after_fill(orig.registers, orig.memory, orig.index, r as int),
                ),
            decreases stop as int + 1 - r,
        {
            let a = masked_index(self.index, r as u16);
            let value = self.memory[a];
            self.set_register(r as u8, value);
            r = r + 1;
        }
    }

    /// Store the decimal digits of a register's value at the index register:
    /// hundreds, tens, ones.
    fn exec_bcd(&mut self, register: u8)
        requires
            old(self).wf(),
            register < 16,
        ensures
            final(self).wf(),
            Some(final(self)@) == op_transition(
                old(self)@,
                Chip8Opcode::ReadRegisterAsBCD(register),
                0,
            ),
    {
        let value = self.get_register(register);
        let hundreds = value / 100;
        let tens = (value / 10) % 10;
        let ones = value % 10;
        let a0 = masked_index(self.index, 0);
        self.memory[a0] = hundreds;
        let a1 = masked_index(self.index, 1);
        self.memory[a1] = tens;
        let a2 = masked_index(self.index, 2);
        self.memory[a2] = ones;
    }

    /// Apply one decoded operation to the machine state. On success the new
    /// state is exactly `op_transition` of the old one (for some generator
    /// byte, which only the random-mask operation looks at). The one failure
    /// is a return on an empty stack, which reports a stack underflow at the
    /// current program counter and leaves the state untouched.
    pub fn execute(&mut self, op: Chip8Opcode) -> (r: Result<(), EmulationError>)
        requires
            old(self).wf(),
            op_wf(op),
        ensures
            final(self).wf(),
            r is Ok ==> exists|b: u8| op_transition(old(self)@, op, b) == Some(final(self)@),
            r is Ok && !(op matches Chip8Opcode::Random(_, _)) ==> op_transition(
                old(self)@,
                op,
                0,
            ) == Some(final(self)@),
            r is Err <==> (op matches Chip8Opcode::ReturnFromSubroutine && old(
                self,
            )@.stack.len() == 0),
            r is Err ==> final(self)@ == old(self)@ && r == Err::<(), EmulationError>(
                EmulationError::StackUnderflow(old(self)@.program_counter),
            ),
    {
        let ghost pre = self@;
        match op {
            Chip8Opcode::DisplayClear => {
                self.exec_display_clear();
                proof {
                    assert(op_transition(pre, op, 0) == Some(self@));
                }
                Ok(())
            },
            Chip8Opcode::ReturnFromSubroutine => {
                match self.stack.pop() {
                    Some(return_to) => {
                        self.program_counter = return_to;
                        proof {
                            assert(self@.stack =~= pre.stack.drop_last());
                            assert(op_transition(pre, op, 0) == Some(self@));
                        }
                        Ok(())
                    },
                    None => Err(EmulationError::StackUnderflow(self.program_counter)),
                }
            },
            Chip8Opcode::Call(address) => {
                self.stack.push(self.program_counter);
                self.program_counter = address;
                proof {
                    assert(op_transition(pre, op, 0) == Some(self@));
                }
                Ok(())
            },
            Chip8Opcode::Goto(address) => {
                self.program_counter = address;
                proof {
                    assert(op_transition(pre, op, 0) == Some(self@));
                }
                Ok(())
            },
            Chip8Opcode::CallSub(sub_address) => {
                self.stack.push(self.program_counter);
                self.program_counter = sub_address;
                proof {
                    assert(op_transition(pre, op, 0) == Some(self@));
                }
                Ok(())
            },
            Chip8Opcode::SkipNextIfEqual(r1, value) => {
                let v1 = self.get_register(r1);
                if v1 == value {
                    self.skip_next_instruction();
                }
                proof {
                    assert(op_transition(pre, op, 0) == Some(self@));
                }
                Ok(())
            },
            Chip8Opcode::SkipNextIfNotEqual(r1, value) => {
                let v1 = self.get_register(r1);
                if v1 != value {
                    self.skip_next_instruction();
                }
                proof {
                    assert(op_transition(pre, op, 0) == Some(self@));
                }
                Ok(())
            },
            Chip8Opcode::SkipNextIfRegistersEqual(r1, r2) => {
                let v1 = self.get_register(r1);
                let v2 = self.get_register(r2);
                if v1 == v2 {
                    self.skip_next_instruction();
                }
                proof {
                    assert(op_transition(pre, op, 0) == Some(self@));
                }
                Ok(())
            },
            Chip8Opcode::SetRegister(r1, value) => {
                self.set_register(r1, value);
                proof {
                    assert(op_transition(pre, op, 0) == Some(self@));
                }
                Ok(())
            },
            Chip8Opcode::IncrementRegister(r1, step) => {
                let value = self.get_register(r1);
                self.set_register(r1, value.wrapping_add(step));
                proof {
                    assert(op_transition(pre, op, 0) == Some(self@));
                }
                Ok(())
            },
            Chip8Opcode::SetRegisterToRegister(r1, r2) => {
                let new_value = self.get_register(r2);
                self.set_register(r1, new_value);
                proof {
                    assert(op_transition(pre, op, 0) == Some(self@));
                }
                Ok(())
            },
            Chip8Opcode::RegisterRegisterOr(r1, r2) => {
                let v1 = self.get_register(r1);
                let v2 = self.get_register(r2);
                self.set_register(r1, v1 | v2);
                proof {
                    assert(op_transition(pre, op, 0) == Some(self@));
                }
                Ok(())
            },
            Chip8Opcode::RegisterRegisterAnd(r1, r2) => {
                let v1 = self.get_register(r1);
                let v2 = self.get_register(r2);
                self.set_register(r1, v1 & v2);
                proof {
                    assert(op_transition(pre, op, 0) == Some(self@));
                }
                Ok(())
            },
            Chip8Opcode::RegisterRegisterXor(r1, r2) => {
                let v1 = self.get_register(r1);
                let v2 = self.get_register(r2);
                self.set_register(r1, v1 ^ v2);
                proof {
                    assert(op_transition(pre, op, 0) == Some(self@));
                }
                Ok(())
            },
            Chip8Opcode::IncrementRegisterWithRegister(r1, r2) => {
                let value = self.get_register(r1);
                let step = self.get_register(r2);
                self.set_register(r1, value.wrapping_add(step));
                if (value as u16 + step as u16) > 255 {
                    self.set_register(0xf, 1);
                } else {
                    self.set_register(0xf, 0);
                }
                proof {
                    assert(op_transition(pre, op, 0) == Some(self@));
                }
                Ok(())
            },
            Chip8Opcode::DecrementRegisterWithRegister(r1, r2) => {
                let value = self.get_register(r1);
                let step = self.get_register(r2);
                self.set_register(r1, value.wrapping_sub(step));
                if value >= step {
                    self.set_register(0xf, 1);
                } else {
                    self.set_register(0xf, 0);
                }
                proof {
                    assert(op_transition(pre, op, 0) == Some(self@));
                }
                Ok(())
            },
            Chip8Opcode::ShiftRegisterByRegister(r1, r2) => {
                let v2 = self.get_register(r2);
                let lsb = v2 & 0x01;
                let value = v2 >> 1;
                self.set_register(r1, value);
                self.set_register(0xf, lsb);
                proof {
                    assert(op_transition(pre, op, 0) == Some(self@));
                }
                Ok(())
            },
            Chip8Opcode::YRegisterMinusXRegister(x, y) => {
                let v1 = self.get_register(x);
                let v2 = self.get_register(y);
                self.set_register(x, v2.wrapping_sub(v1));
                if v2 >= v1 {
                    self.set_register(0xf, 1);
                } else {
                    self.set_register(0xf, 0);
                }
                proof {
                    assert(op_transition(pre, op, 0) == Some(self@));
                }
                Ok(())
            },
            Chip8Opcode::LeftShiftRegisterByRegister(r1, r2) => {
                let v2 = self.get_register(r2);
                let msb = v2 >> 7;
                let value = v2 << 1;
                self.set_register(r1, value);
                self.set_register(r2, value);
                self.set_register(0xf, msb);
                proof {
                    assert(op_transition(pre, op, 0) == Some(self@));
                }
                Ok(())
            },
            Chip8Opcode::SkipNextIfRegistersNotEqual(r1, r2) => {
                let v1 = self.get_register(r1);
                let v2 = self.get_register(r2);
                if v1 != v2 {
                    self.skip_next_instruction();
                }
                proof {
                    assert(op_transition(pre, op, 0) == Some(self@));
                }
                Ok(())
            },
            Chip8Opcode::SetIndexRegister(value) => {
                self.index = value;
                proof {
                    assert(op_transition(pre, op, 0) == Some(self@));
                }
                Ok(())
            },
            Chip8Opcode::JumpFromV0(offset) => {
                let base = self.get_register(0) as u16;
                self.program_counter = offset.wrapping_add(base);
                proof {
                    assert(op_transition(pre, op, 0) == Some(self@));
                }
                Ok(())
            },
            Chip8Opcode::Random(target_register, value) => {
                let drawn = random_byte();
                self.set_register(target_register, drawn & value);
                proof {
                    assert(op_transition(pre, op, drawn) == Some(self@));
                }
                Ok(())
            },
            Chip8Opcode::Draw(x_reg, y_reg, height) => {
                self.exec_draw(x_reg, y_reg, height);
                Ok(())
            },
            Chip8Opcode::SkipNextIfKeyDown(register) => {
                let key = (self.get_register(register) % 16) as usize;
                if self.keys[key] {
                    self.skip_next_instruction();
                }
                proof {
                    assert(op_transition(pre, op, 0) == Some(self@));
                }
                Ok(())
            },
            Chip8Opcode::SkipNextIfKeyUp(register) => {
                let key = (self.get_register(register) % 16) as usize;
                if !self.keys[key] {
                    self.skip_next_instruction();
                }
                proof {
                    assert(op_transition(pre, op, 0) == Some(self@));
                }
                Ok(())
            },
            Chip8Opcode::ReadDelayTimer(destination_register) => {
                let timer = self.delay_timer;
                self.set_register(destination_register, timer);
                proof {
                    assert(op_transition(pre, op, 0) == Some(self@));
                }
                Ok(())
            },
            Chip8Opcode::BlockOnKeyPress(target_register) => {
                self.waiting_for_keypress = true;
                self.waiting_for_keypress_target = target_register as usize;
                proof {
                    assert(op_transition(pre, op, 0) == Some(self@));
                }
                Ok(())
            },
            Chip8Opcode::SetDelayTimer(target_register) => {
                let value = self.get_register(target_register);
                self.delay_timer = value;
                proof {
                    assert(op_transition(pre, op, 0) == Some(self@));
                }
                Ok(())
            },
            Chip8Opcode::SetSoundTimer(target_register) => {
                let value = self.get_register(target_register);
                self.sound_timer = value;
                proof {
                    assert(op_transition(pre, op, 0) == Some(self@));
                }
                Ok(())
            },
            Chip8Opcode::AddToIndexRegister(target_register) => {
                let value = self.get_register(target_register);
                self.index = self.index.wrapping_add(value as u16);
                proof {
                    assert(op_transition(pre, op, 0) == Some(self@));
                }
                Ok(())
            },
            Chip8Opcode::UseSprite(register) => {
                let character = self.get_register(register) as u16;
                self.index = 5 * character;
                proof {
                    assert(op_transition(pre, op, 0) == Some(self@));
                }
                Ok(())
            },
            Chip8Opcode::ReadRegisterAsBCD(register) => {
                self.exec_bcd(register);
                Ok(())
            },
            Chip8Opcode::DumpRegisters(stop_register) => {
                self.exec_dump_registers(stop_register);
                proof {
                    assert(op_transition(pre, op, 0) == Some(self@));
                }
                Ok(())
            },
            Chip8Opcode::FillRegisters(stop_register) => {
                self.exec_fill_registers(stop_register);
                proof {
                    assert(op_transition(pre, op, 0) == Some(self@));
                }
                Ok(())
            },
        }
    }

    /// One fetch/execute cycle: read the instruction word at the program
    /// counter, advance the counter past it, decode, and execute. A decode
    /// error leaves the state untouched; an execution error leaves it as it
    /// stood after the advance.
    pub fn step(&mut self) -> (r: Result<(), EmulationError>)
        requires
            old(self).wf(),
        ensures
            final(self).wf(),
            ({
                let instr = fetch_word(old(self)@.memory, old(self)@.program_counter);
                let advanced = with_pc(
                    old(self)@,
                    wrap_add16(old(self)@.program_counter, 2),
                );
                match spec_decode(instr) {
                    Err(e) => r == Err::<(), EmulationError>(e) && final(self)@ == old(self)@,
                    Ok(op) => {
                        &&& (r is Ok ==> exists|b: u8|
                            op_transition(advanced, op, b) == Some(final(self)@))
                        &&& (r is Ok && !(op matches Chip8Opcode::Random(_, _))
                            ==> op_transition(advanced, op, 0) == Some(final(self)@))
                        &&& (r is Err <==> (op matches Chip8Opcode::ReturnFromSubroutine
                            && old(self)@.stack.len() == 0))
                        &&& (r is Err ==> final(self)@ == advanced && r == Err::<
                            (),
                            EmulationError,
                        >(EmulationError::StackUnderflow(advanced.program_counter)))
                    },
                }
            }),
    {
        let hi = masked_index(self.program_counter, 0);
        let lo = masked_index(self.program_counter, 1);
        let instruction = ((self.memory[hi] as u16) << 8) | (self.memory[lo] as u16);
        proof {
            assert(instruction == fetch_word(self@.memory, self@.program_counter));
        }
        let decoded = match self.decode(instruction) {
            Ok(op) => op,
            Err(e) => {
                return Err(e);
            },
        };
        self.skip_next_instruction();
        self.execute(decoded)
    }
}

/// A uniformly random byte.
///
/// Relies on `rand::random`, seeded from the thread-local generator: nothing
/// is promised of the value, and two calls may differ.
#[verifier::external_body]
fn random_byte() -> u8 {
    rand::random::<u8>()
}

} // verus!
