//! The machine state: memory, registers, index register, program counter,
//! framebuffer, timers, call stack, key flags and the key-wait marker — plus
//! the mathematical view of all of it that the contracts speak about.

use vstd::prelude::*;
use crate::hexfont::{get_hex_font, hex_font};
use crate::opcodes::{Chip8Register, Chip8Value};

verus! {

/// The mathematical value of a whole machine state.
#[verifier::ext_equal]
pub ghost struct MachineView {
    pub memory: Seq<u8>,
    pub registers: Seq<u8>,
    pub index: u16,
    pub program_counter: u16,
    pub gfx: Seq<u8>,
    pub delay_timer: u8,
    pub sound_timer: u8,
    pub stack: Seq<u16>,
    pub keys: Seq<bool>,
    pub waiting_for_keypress: bool,
    pub waiting_for_keypress_target: usize,
}

/// Well-formedness of a machine state: the fixed sizes of memory, register
/// bank, framebuffer and key bank; the key-wait target names a register; and
/// every framebuffer cell is monochrome (0 or 1).
pub open spec fn view_wf(s: MachineView) -> bool {
    &&& s.memory.len() == 4096
    &&& s.registers.len() == 16
    &&& s.gfx.len() == 2048
    &&& s.keys.len() == 16
    &&& s.waiting_for_keypress_target < 16
    &&& forall|i: int| 0 <= i < 2048 ==> s.gfx[i] <= 1
}

// Functional updates of a view, one field at a time. The execution contracts
// describe each operation as a chain of these.

pub open spec fn with_mem(s: MachineView, memory: Seq<u8>) -> MachineView {
    MachineView { memory, ..s }
}

pub open spec fn with_regs(s: MachineView, registers: Seq<u8>) -> MachineView {
    MachineView { registers, ..s }
}

pub open spec fn with_index(s: MachineView, index: u16) -> MachineView {
    MachineView { index, ..s }
}

pub open spec fn with_pc(s: MachineView, program_counter: u16) -> MachineView {
    MachineView { program_counter, ..s }
}

pub open spec fn with_gfx(s: MachineView, gfx: Seq<u8>) -> MachineView {
    MachineView { gfx, ..s }
}

pub open spec fn with_delay(s: MachineView, delay_timer: u8) -> MachineView {
    MachineView { delay_timer, ..s }
}

pub open spec fn with_sound(s: MachineView, sound_timer: u8) -> MachineView {
    MachineView { sound_timer, ..s }
}

pub open spec fn with_stack(s: MachineView, stack: Seq<u16>) -> MachineView {
    MachineView { stack, ..s }
}

pub open spec fn with_waiting(s: MachineView, target: usize) -> MachineView {
    MachineView { waiting_for_keypress: true, waiting_for_keypress_target: target, ..s }
}

// 8-bit and 16-bit wraparound arithmetic, as the execution semantics use it.

pub open spec fn wrap_add8(a: u8, b: u8) -> u8 {
    if a + b > 255 {
        (a + b - 256) as u8
    } else {
        (a + b) as u8
    }
}

pub open spec fn wrap_sub8(a: u8, b: u8) -> u8 {
    if a - b < 0 {
        (a - b + 256) as u8
    } else {
        (a - b) as u8
    }
}

pub open spec fn wrap_add16(a: u16, b: u16) -> u16 {
    if a + b > 0xffff {
        (a + b - 0x10000) as u16
    } else {
        (a + b) as u16
    }
}

/// A memory address as used by every memory-indexed operation: the index
/// register reduced to 12 bits, plus a small offset, wrapped back into the
/// 4096-byte address space.
pub open spec fn masked_addr(index: u16, off: int) -> int
    recommends
        0 <= off < 4096,
{
    let base = (index % 4096) as int;
    if base + off < 4096 {
        base + off
    } else {
        base + off - 4096
    }
}

/// Compute a masked memory address for a base pointer and a small offset.
pub fn masked_index(index: u16, off: u16) -> (a: usize)
    requires
        off < 4096,
    ensures
        a == masked_addr(index, off as int),
        a < 4096,
{
    let base = (index % 4096) as usize;
    let a = base + off as usize;
    if a >= 4096 {
        a - 4096
    } else {
        a
    }
}

/// A vector of `n` copies of `value`.
fn filled_vec<T: Copy>(n: usize, value: T) -> (r: Vec<T>)
    ensures
        r@.len() == n,
        forall|i: int| 0 <= i < n ==> r@[i] == value,
{
    let mut r: Vec<T> = Vec::new();
    while r.len() < n
        invariant
            r@.len() <= n,
            forall|i: int| 0 <= i < r@.len() ==> r@[i] == value,
        decreases n - r@.len(),
    {
        r.push(value);
    }
    r
}

/// The state of a freshly constructed machine: the font in low memory, all
/// else zeroed, the program counter at the start of program space.
pub open spec fn initial_view() -> MachineView {
    MachineView {
        memory: Seq::new(4096, |i: int| if i < 80 { hex_font()[i] } else { 0u8 }),
        registers: Seq::new(16, |i: int| 0u8),
        index: 0,
        program_counter: 0x200,
        gfx: Seq::new(2048, |i: int| 0u8),
        delay_timer: 0,
        sound_timer: 0,
        stack: Seq::empty(),
        keys: Seq::new(16, |i: int| false),
        waiting_for_keypress: false,
        waiting_for_keypress_target: 0,
    }
}

/// The whole machine: 4K of memory, sixteen 8-bit registers (0xF doubling as
/// the flag register), the 16-bit index register and program counter, the
/// 64x32 monochrome framebuffer, two countdown timers, the call stack, the
/// key-down flags and the key-wait marker.
pub struct ComputerState {
    /// 4096 addressable bytes; the font sits at 0x000..0x050, program space
    /// conventionally begins at 0x200.
    pub memory: Vec<u8>,
    /// General purpose registers V0..=VF; VF is the implicit flag register.
    pub registers: Vec<u8>,
    /// Pointer used by the memory-indexed operations.
    pub index: u16,
    /// Byte offset of the next instruction to fetch.
    pub program_counter: u16,
    /// 64x32 cells, row-major (`y * 64 + x`), each 0 or 1.
    pub gfx: Vec<u8>,
    /// Counted down externally at a fixed cadence; never advanced by the core.
    pub delay_timer: u8,
    /// As `delay_timer`; sound plays while nonzero.
    pub sound_timer: u8,
    /// Return addresses, pushed on subroutine call, popped on return.
    pub stack: Vec<u16>,
    /// Key-down flags, written only by the input driver.
    pub keys: Vec<bool>,
    /// Set while execution is blocked awaiting a keypress.
    pub waiting_for_keypress: bool,
    /// The register that will receive the next pressed key while blocked.
    pub waiting_for_keypress_target: usize,
}

impl View for ComputerState {
    type V = MachineView;

    open spec fn view(&self) -> MachineView {
        MachineView {
            memory: self.memory@,
            registers: self.registers@,
            index: self.index,
            program_counter: self.program_counter,
            gfx: self.gfx@,
            delay_timer: self.delay_timer,
            sound_timer: self.sound_timer,
            stack: self.stack@,
            keys: self.keys@,
            waiting_for_keypress: self.waiting_for_keypress,
            waiting_for_keypress_target: self.waiting_for_keypress_target,
        }
    }
}

impl ComputerState {
    /// Well-formedness, as `view_wf` of the state's view.
    pub open spec fn wf(&self) -> bool {
        view_wf(self@)
    }

    /// A fresh machine: font loaded into low memory, everything else zeroed,
    /// program counter at 0x200.
    pub fn new() -> (r: ComputerState)
        ensures
            r@ == initial_view(),
            r.wf(),
    {
        let font = get_hex_font();
        let mut memory = filled_vec(4096, 0u8);
        let mut offset: usize = 0;
        while offset < 80
            invariant
                memory@.len() == 4096,
                font@ == hex_font(),
                offset <= 80,
                forall|j: int| 0 <= j < offset ==> memory@[j] == hex_font()[j],
                forall|j: int| offset <= j < 4096 ==> memory@[j] == 0u8,
            decreases 80 - offset,
        {
            memory[offset] = font[offset];
            offset = offset + 1;
        }
        let r = ComputerState {
            memory,
            registers: filled_vec(16, 0u8),
            index: 0,
            program_counter: 0x200,
            gfx: filled_vec(2048, 0u8),
            delay_timer: 0,
            sound_timer: 0,
            stack: Vec::new(),
            keys: filled_vec(16, false),
            waiting_for_keypress: false,
            waiting_for_keypress_target: 0,
        };
        proof {
            assert(r@.memory =~= initial_view().memory);
            assert(r@.registers =~= initial_view().registers);
            assert(r@.gfx =~= initial_view().gfx);
            assert(r@.keys =~= initial_view().keys);
            assert(r@.stack =~= initial_view().stack);
            assert(r@ =~= initial_view());
        }
        r
    }

    /// Read a general purpose register.
    pub fn get_register(&self, register_index: Chip8Register) -> (r: Chip8Value)
        requires
            self.wf(),
            register_index < 16,
        ensures
            r == self@.registers[register_index as int],
    {
        self.registers[register_index as usize]
    }

    /// Write a general purpose register; nothing else changes.
    pub fn set_register(&mut self, register_index: Chip8Register, register_value: Chip8Value)
        requires
            old(self).wf(),
            register_index < 16,
        ensures
            final(self)@ == with_regs(
                old(self)@,
                old(self)@.registers.update(register_index as int, register_value),
            ),
            final(self).wf(),
    {
        self.registers[register_index as usize] = register_value;
    }

    /// Advance the program counter past one 2-byte instruction, wrapping at
    /// the 16-bit boundary.
    pub(crate) fn skip_next_instruction(&mut self)
        requires
            old(self).wf(),
        ensures
            final(self)@ == with_pc(old(self)@, wrap_add16(old(self)@.program_counter, 2)),
            final(self).wf(),
    {
        self.program_counter = self.program_counter.wrapping_add(2);
    }

    /// Copy a program image into memory starting at 0x200, the start of
    /// program space. Everything outside the copied range is untouched.
    pub fn load_program_bytes(&mut self, program: &[u8])
        requires
            old(self).wf(),
            program@.len() <= 4096 - 0x200,
        ensures
            final(self).wf(),
            final(self)@ == with_mem(
                old(self)@,
                Seq::new(
                    4096,
                    |i: int|
                        if 0x200 <= i < 0x200 + program@.len() {
                            program@[i - 0x200]
                        } else {
                            old(self)@.memory[i]
                        },
                ),
            ),
    {
        let ghost pre = self@;
        let mut i: usize = 0;
        while i < program.len()
            invariant
                self.wf(),
                i <= program@.len(),
                program@.len() <= 4096 - 0x200,
                self@ == with_mem(pre, self@.memory),
                self@.memory.len() == 4096,
                forall|j: int| 0x200 <= j < 0x200 + i ==> self@.memory[j] == program@[j - 0x200],
                forall|j: int|
                    (0 <= j < 0x200 || 0x200 + i <= j < 4096) ==> self@.memory[j] == pre.memory[j],
            decreases program@.len() - i,
        {
            self.memory[0x200 + i] = program[i];
            i = i + 1;
        }
        proof {
            assert(self@.memory =~= Seq::new(
                4096,
                |i: int|
                    if 0x200 <= i < 0x200 + program@.len() {
                        program@[i - 0x200]
                    } else {
                        pre.memory[i]
                    },
            ));
            assert(self@ =~= with_mem(
                pre,
                Seq::new(
                    4096,
                    |i: int|
                        if 0x200 <= i < 0x200 + program@.len() {
                            program@[i - 0x200]
                        } else {
                            pre.memory[i]
                        },
                ),
            ));
        }
    }
}

} // verus!
