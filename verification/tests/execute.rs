use chip8::opcodes::Chip8Opcode;
use chip8::state::ComputerState;

fn new_test_emulator() -> ComputerState {
    ComputerState::new()
}

// Execute tests -------

#[test]
fn call_sub_works() {
    let mut computer = new_test_emulator();
    let original_pc = computer.program_counter;

    computer.execute(Chip8Opcode::CallSub(0x80)).unwrap(); // big jump
    assert_eq!(computer.program_counter, 0x80);

    assert_eq!(1, computer.stack.len());
    assert_eq!(original_pc, computer.stack[0]);
}

#[test]
fn return_from_sub_works() {
    let mut computer = new_test_emulator();
    let original_pc = computer.program_counter;

    // Call sub, then return
    computer.execute(Chip8Opcode::CallSub(0x80)).unwrap();
    computer.execute(Chip8Opcode::ReturnFromSubroutine).unwrap();

    // Make sure stack is cleared
    assert_eq!(0, computer.stack.len());
    assert_eq!(computer.program_counter, original_pc);
}

#[test]
fn skip_next_if_equal_works() {
    let mut computer = new_test_emulator();
    let original_pc = computer.program_counter;

    computer.set_register(0, 66);
    computer.execute(Chip8Opcode::SkipNextIfEqual(0, 67)).unwrap();

    // pc should not change if values not equal
    assert_eq!(computer.program_counter, original_pc);

    computer.execute(Chip8Opcode::SkipNextIfEqual(0, 66)).unwrap();

    // pc should advance past the next instruction if equal
    assert_eq!(computer.program_counter, original_pc + 2);
}

#[test]
fn skip_next_if_not_equal_works() {
    let mut computer = new_test_emulator();
    let original_pc = computer.program_counter;

    computer.set_register(0, 66);
    computer.execute(Chip8Opcode::SkipNextIfNotEqual(0, 66)).unwrap();

    // pc should not change if values are equal
    assert_eq!(computer.program_counter, original_pc);

    computer.execute(Chip8Opcode::SkipNextIfNotEqual(0, 67)).unwrap();

    // skip over next instruction if values not equal
    assert_eq!(computer.program_counter, original_pc + 2);
}

#[test]
fn skip_next_if_registers_equal_works() {
    let mut computer = new_test_emulator();
    let original_pc = computer.program_counter;

    computer.set_register(0, 66);
    computer.set_register(1, 99);
    computer.set_register(2, 66);

    // 66 != 99
    computer.execute(Chip8Opcode::SkipNextIfRegistersEqual(0, 1)).unwrap();
    assert_eq!(computer.program_counter, original_pc);

    // 66 == 66
    computer.execute(Chip8Opcode::SkipNextIfRegistersEqual(0, 2)).unwrap();
    assert_eq!(computer.program_counter, original_pc + 2);
}

#[test]
fn skip_next_if_registers_not_equal_works() {
    let mut computer = new_test_emulator();
    let original_pc = computer.program_counter;

    computer.set_register(0, 66);
    computer.set_register(1, 99);
    computer.set_register(2, 66);

    computer.execute(Chip8Opcode::SkipNextIfRegistersNotEqual(0, 2)).unwrap();

    // 66 == 66
    assert_eq!(computer.program_counter, original_pc);

    computer.execute(Chip8Opcode::SkipNextIfRegistersNotEqual(0, 1)).unwrap();

    // 66 != 99
    assert_eq!(computer.program_counter, original_pc + 2);
}

#[test]
fn regular_increment_works() {
    let mut computer = new_test_emulator();
    computer.set_register(0, 150);
    computer.execute(Chip8Opcode::IncrementRegister(0, 10)).unwrap();

    assert_eq!(computer.get_register(0), 160);
}

#[test]
fn regular_increment_wraps_overflow() {
    let mut computer = new_test_emulator();
    computer.set_register(0, 250);
    computer.execute(Chip8Opcode::IncrementRegister(0, 10)).unwrap();

    assert_eq!(computer.get_register(0), 4);
}

#[test]
fn reg_reg_addition_works() {
    let mut computer = new_test_emulator();
    computer.set_register(0, 25);
    computer.set_register(1, 10);
    computer.execute(Chip8Opcode::IncrementRegisterWithRegister(0, 1)).unwrap();

    assert_eq!(computer.get_register(0), 35);
    assert_eq!(computer.get_register(1), 10);
}

#[test]
fn reg_reg_addition_wraps_overflow() {
    let mut computer = new_test_emulator();
    computer.set_register(0, 255);
    computer.set_register(1, 10);

    computer.execute(Chip8Opcode::IncrementRegisterWithRegister(0, 1)).unwrap();

    // overflow should wrap, not crash
    assert_eq!(computer.get_register(0), 9);
    assert_eq!(computer.get_register(1), 10); // make sure reg y is not touched
}

#[test]
fn reg_reg_addition_sets_carry_flag() {
    let mut computer = new_test_emulator();
    computer.set_register(0, 200);
    computer.set_register(1, 10);

    computer.execute(Chip8Opcode::IncrementRegisterWithRegister(0, 1)).unwrap();
    assert_eq!(computer.get_register(0xf), 0); // carry flag must not be set for non-overflow

    computer.set_register(2, 255);
    computer.execute(Chip8Opcode::IncrementRegisterWithRegister(2, 1)).unwrap();
    assert_eq!(computer.get_register(0xf), 1); // did overflow, so carry flag must be set
}

#[test]
fn reg_reg_decrement_works() {
    let mut computer = new_test_emulator();
    computer.set_register(0, 17);
    computer.set_register(1, 2);
    computer.execute(Chip8Opcode::DecrementRegisterWithRegister(0, 1)).unwrap();

    assert_eq!(computer.get_register(0), 15);
    assert_eq!(computer.get_register(1), 2);
}

#[test]
fn reg_reg_decrement_wraps_underflow() {
    let mut computer = new_test_emulator();
    computer.set_register(0, 0);
    computer.set_register(1, 2);
    computer.execute(Chip8Opcode::DecrementRegisterWithRegister(0, 1)).unwrap();

    assert_eq!(computer.get_register(0), 254);
    assert_eq!(computer.get_register(1), 2);
}

#[test]
fn reg_reg_decrement_sets_borrow_register() {
    let mut computer = new_test_emulator();
    computer.set_register(0, 100);
    computer.set_register(1, 1);
    computer.execute(Chip8Opcode::DecrementRegisterWithRegister(0, 1)).unwrap();
    assert_eq!(computer.get_register(0xf), 1); // NOT borrowed

    computer.set_register(2, 150);
    computer.execute(Chip8Opcode::DecrementRegisterWithRegister(0, 2)).unwrap();
    assert_eq!(computer.get_register(0xf), 0); // did borrow
}

#[test]
fn reg_reg_shift_works() {
    let mut computer = new_test_emulator();
    computer.set_register(0, 8);
    computer.set_register(1, 32);

    computer.execute(Chip8Opcode::ShiftRegisterByRegister(0, 1)).unwrap();

    assert_eq!(computer.get_register(0), 32 >> 1);
    assert_eq!(computer.get_register(1), 32); // remains unchanged
}

#[test]
fn reg_reg_shift_sets_f_register() {
    let mut computer = new_test_emulator();
    computer.set_register(1, 0xff);
    computer.execute(Chip8Opcode::ShiftRegisterByRegister(0, 1)).unwrap();
    assert_eq!(computer.get_register(0xf), 1); // least significant bit of 0xff is 1

    computer.set_register(1, 0x01);
    computer.execute(Chip8Opcode::ShiftRegisterByRegister(0, 1)).unwrap();
    assert_eq!(computer.get_register(0xf), 1); // least significant bit of 0x01 is also 1

    computer.set_register(1, 0x00);
    computer.execute(Chip8Opcode::ShiftRegisterByRegister(0, 1)).unwrap();
    assert_eq!(computer.get_register(0xf), 0); // least significant bit of 0x00 is 0

    computer.set_register(1, 0xf0);
    computer.execute(Chip8Opcode::ShiftRegisterByRegister(0, 1)).unwrap();
    assert_eq!(computer.get_register(0xf), 0); // least significant bit of 0xf0 is also 1
}

#[test]
fn reg_reg_left_shift_works() {
    let mut computer = new_test_emulator();
    computer.set_register(1, 60);

    computer.execute(Chip8Opcode::LeftShiftRegisterByRegister(0, 1)).unwrap();
    assert_eq!(computer.get_register(0), 60 << 1);
    assert_eq!(computer.get_register(1), 60 << 1); // should be changed too
}

#[test]
fn reg_reg_left_shift_sets_f_register() {
    let mut computer = new_test_emulator();
    computer.set_register(1, 0xff);
    computer.execute(Chip8Opcode::LeftShiftRegisterByRegister(0, 1)).unwrap();
    assert_eq!(computer.get_register(0xf), 1); // most significant bit was non-zero

    computer.set_register(1, 0x0f);
    computer.execute(Chip8Opcode::LeftShiftRegisterByRegister(0, 1)).unwrap();
    assert_eq!(computer.get_register(0xf), 0); // most significant bit of 0x0f is zero
}

#[test]
fn y_minus_x_works() {
    let mut computer = new_test_emulator();
    computer.set_register(0, 35);
    computer.set_register(1, 100);

    computer.execute(Chip8Opcode::YRegisterMinusXRegister(0, 1)).unwrap();

    assert_eq!(computer.get_register(0), 65); // 100 - 35
}

#[test]
fn y_minus_x_sets_f_register() {
    let mut computer = new_test_emulator();
    computer.set_register(0, 150);
    computer.set_register(1, 200);
    computer.execute(Chip8Opcode::YRegisterMinusXRegister(0, 1)).unwrap();
    assert_eq!(computer.get_register(0), 50);
    assert_eq!(computer.get_register(0xf), 1); // NOT borrowed

    // now underflow
    computer.set_register(0, 25);
    computer.set_register(1, 15);
    computer.execute(Chip8Opcode::YRegisterMinusXRegister(0, 1)).unwrap();
    assert_eq!(computer.get_register(0xf), 0); // borrowed
}

#[test]
fn read_delay_timer_works() {
    let mut computer = new_test_emulator();
    computer.delay_timer = 100;

    computer.execute(Chip8Opcode::ReadDelayTimer(0)).unwrap();
    assert_eq!(computer.get_register(0), 100);
    assert_eq!(computer.delay_timer, 100); // make sure the value is preserved
}

#[test]
fn block_on_keypress_works() {
    // only going to test the computer state side of things,
    // the actual emulator is too annoying to test
    let mut computer = new_test_emulator();
    assert_eq!(computer.waiting_for_keypress, false); // should be false by default
    computer.execute(Chip8Opcode::BlockOnKeyPress(0xc)).unwrap();
    assert!(computer.waiting_for_keypress); // should now be blocked
    assert_eq!(computer.waiting_for_keypress_target, 0xc); // should have the right register set
}

#[test]
fn set_index_register_works() {
    let mut computer = new_test_emulator();
    computer.execute(Chip8Opcode::SetIndexRegister(0xa0)).unwrap();
    assert_eq!(computer.index, 0xa0);
}

#[test]
fn jump_from_v0_works() {
    let mut computer = new_test_emulator();
    computer.set_register(0, 10);
    computer.execute(Chip8Opcode::JumpFromV0(150)).unwrap();
    assert_eq!(computer.program_counter, 160);
}

#[test]
fn set_delay_timer_works() {
    let mut computer = new_test_emulator();
    computer.set_register(0, 123);
    computer.execute(Chip8Opcode::SetDelayTimer(0)).unwrap();
    assert_eq!(computer.delay_timer, 123);
    assert_eq!(computer.get_register(0), 123);
}

#[test]
fn set_sound_timer_works() {
    let mut computer = new_test_emulator();
    computer.set_register(0, 124);
    computer.execute(Chip8Opcode::SetSoundTimer(0)).unwrap();
    assert_eq!(computer.sound_timer, 124);
    assert_eq!(computer.get_register(0), 124)
}

#[test]
fn register_register_or_works() {
    let mut computer = new_test_emulator();
    computer.set_register(0, 0xa0);
    computer.set_register(1, 0x0f);
    computer.execute(Chip8Opcode::RegisterRegisterOr(0, 1)).unwrap();
    assert_eq!(computer.get_register(0), 0xaf);
    assert_eq!(computer.get_register(1), 0x0f); // make sure the y-register is not touched
}

#[test]
fn register_register_and_works() {
    let mut computer = new_test_emulator();
    computer.set_register(0, 0xaf);
    computer.set_register(1, 0x0f);
    computer.execute(Chip8Opcode::RegisterRegisterAnd(0, 1)).unwrap();
    assert_eq!(computer.get_register(0), 0x0f);
    assert_eq!(computer.get_register(1), 0x0f); // make sure the y-register is not touched
}

#[test]
fn register_register_xor_works() {
    let mut computer = new_test_emulator();
    computer.set_register(0, 0xff);
    computer.set_register(1, 0x0f);
    computer.execute(Chip8Opcode::RegisterRegisterXor(0, 1)).unwrap();
    assert_eq!(computer.get_register(0), 0xf0);
    assert_eq!(computer.get_register(1), 0x0f); // make sure the y-register is not touched
}

#[test]
fn read_register_as_bcd_works() {
    let mut computer = new_test_emulator();
    computer.set_register(0, 123);
    computer.set_register(1, 23);
    computer.set_register(2, 103);
    computer.set_register(3, 3);
    computer.index = 0x200;

    computer.execute(Chip8Opcode::ReadRegisterAsBCD(0)).unwrap();
    assert_eq!(computer.memory[0x200 + 0], 1);
    assert_eq!(computer.memory[0x200 + 1], 2);
    assert_eq!(computer.memory[0x200 + 2], 3);

    computer.execute(Chip8Opcode::ReadRegisterAsBCD(1)).unwrap();
    assert_eq!(computer.memory[0x200 + 0], 0);
    assert_eq!(computer.memory[0x200 + 1], 2);
    assert_eq!(computer.memory[0x200 + 2], 3);

    computer.execute(Chip8Opcode::ReadRegisterAsBCD(2)).unwrap();
    assert_eq!(computer.memory[0x200 + 0], 1);
    assert_eq!(computer.memory[0x200 + 1], 0);
    assert_eq!(computer.memory[0x200 + 2], 3);

    computer.execute(Chip8Opcode::ReadRegisterAsBCD(3)).unwrap();
    assert_eq!(computer.memory[0x200 + 0], 0);
    assert_eq!(computer.memory[0x200 + 1], 0);
    assert_eq!(computer.memory[0x200 + 2], 3);
}

#[test]
fn use_sprite_works() {
    let mut computer = new_test_emulator();

    computer.set_register(0, 0x3);
    computer.set_register(1, 0xf);

    computer.execute(Chip8Opcode::UseSprite(0)).unwrap();
    assert_eq!(computer.index, 0x0 + (0x3 * 5));

    computer.execute(Chip8Opcode::UseSprite(1)).unwrap();
    assert_eq!(computer.index, 0x0 + (0xf * 5));
}

#[test]
fn dump_registers_works() {
    let mut computer = new_test_emulator();
    computer.set_register(0, 123);
    computer.set_register(1, 103);
    computer.set_register(2, 66);

    computer.index = 0x200;

    computer.execute(Chip8Opcode::DumpRegisters(1)).unwrap();

    // make sure registers are not changed
    assert_eq!(computer.get_register(0), 123);
    assert_eq!(computer.get_register(1), 103);
    assert_eq!(computer.get_register(2), 66);

    // make sure that r0 and r1 got written, but not r2
    assert_eq!(computer.memory[0x200 + 0], 123);
    assert_eq!(computer.memory[0x200 + 1], 103);
    assert_eq!(computer.memory[0x200 + 2], 0);
}

#[test]
fn fill_registers_works() {
    let mut computer = new_test_emulator();
    computer.index = 0x200;
    computer.memory[0x200 + 0] = 123;
    computer.memory[0x200 + 1] = 103;
    computer.memory[0x200 + 2] = 66;

    computer.execute(Chip8Opcode::FillRegisters(1)).unwrap();
    assert_eq!(computer.get_register(0), 123);
    assert_eq!(computer.get_register(1), 103);

    // We only said up to v1, so...
    assert_eq!(computer.get_register(2), 0);

    // Make sure memory is unchanged
    assert_eq!(computer.memory[0x200], 123);
    assert_eq!(computer.memory[0x201], 103);
    assert_eq!(computer.memory[0x202], 66);
}
