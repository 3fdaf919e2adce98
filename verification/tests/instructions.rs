use chip8::emulator::fault::Fault;
use chip8::emulator::instructions::Instruction;
use chip8::emulator::keypad::{Event, Keycode};
use chip8::emulator::{CpuState, Emulator};

fn machine() -> Emulator {
    Emulator::new(64, 32)
}

fn press(key: Keycode) -> Event {
    Event::KeyDown { keycode: Some(key) }
}

#[test]
fn sys_does_nothing() {
    let mut emulator = machine();
    let before = emulator.clone();
    assert_eq!(emulator.execute(0x0123, vec![]), Ok(()));
    assert_eq!(emulator, before);
}

#[test]
fn cls_clears_the_display() {
    let mut emulator = machine();
    emulator.screen.pixel_repr[1][2] = 1;
    emulator.screen.pixel_repr[31][63] = 1;
    let mut expected = emulator.clone();
    expected.screen.pixel_repr = [[0u8; 64]; 32];
    assert_eq!(emulator.execute(0x00E0, vec![]), Ok(()));
    assert_eq!(emulator, expected);
}

#[test]
fn jp_sets_the_program_counter() {
    let mut emulator = machine();
    let mut expected = emulator.clone();
    expected.cpu.PC = 0x345;
    assert_eq!(emulator.execute(0x1345, vec![]), Ok(()));
    assert_eq!(emulator, expected);
    assert_eq!(emulator.execute(0x1FFF, vec![]), Ok(()));
    assert_eq!(emulator.cpu.PC, 0xFFF);
}

#[test]
fn call_pushes_the_program_counter() {
    let mut emulator = machine();
    emulator.cpu.PC = 0x202;
    let mut expected = emulator.clone();
    expected.cpu.SP = 1;
    expected.cpu.stack[1] = 0x202;
    expected.cpu.PC = 0x400;
    assert_eq!(emulator.execute(0x2400, vec![]), Ok(()));
    assert_eq!(emulator, expected);
}

#[test]
fn ret_pops_the_program_counter() {
    let mut emulator = machine();
    emulator.cpu.SP = 2;
    emulator.cpu.stack[1] = 0x300;
    emulator.cpu.stack[2] = 0x456;
    let mut expected = emulator.clone();
    expected.cpu.SP = 1;
    expected.cpu.PC = 0x456;
    assert_eq!(emulator.execute(0x00EE, vec![]), Ok(()));
    assert_eq!(emulator, expected);
}

#[test]
fn ret_after_call_returns_to_the_caller() {
    let mut emulator = machine();
    emulator.cpu.PC = 0x20A;
    emulator.cpu.SP = 3;
    assert_eq!(emulator.execute(0x2ABC, vec![]), Ok(()));
    assert_eq!(emulator.cpu.PC, 0xABC);
    assert_eq!(emulator.cpu.SP, 4);
    assert_eq!(emulator.execute(0x00EE, vec![]), Ok(()));
    assert_eq!(emulator.cpu.PC, 0x20A);
    assert_eq!(emulator.cpu.SP, 3);
}

#[test]
fn ret_with_an_empty_stack_is_a_fault_and_changes_nothing() {
    let mut emulator = machine();
    emulator.cpu.stack[0] = 0x123;
    let before = emulator.clone();
    assert_eq!(emulator.execute(0x00EE, vec![]), Err(Fault::StackUnderflow));
    assert_eq!(emulator, before);
}

#[test]
fn call_with_a_full_stack_is_a_fault_and_changes_nothing() {
    let mut emulator = machine();
    emulator.cpu.SP = 15;
    let before = emulator.clone();
    assert_eq!(emulator.execute(0x2400, vec![]), Err(Fault::StackOverflow));
    assert_eq!(emulator, before);
}

#[test]
fn the_stack_holds_fifteen_calls() {
    let mut emulator = machine();
    for depth in 1..=15u16 {
        emulator.cpu.PC = 0x200 + 2 * depth;
        assert_eq!(emulator.execute(0x2300, vec![]), Ok(()));
        assert_eq!(emulator.cpu.SP as u16, depth);
    }
    assert_eq!(emulator.execute(0x2300, vec![]), Err(Fault::StackOverflow));
    for depth in (1..=15u16).rev() {
        assert_eq!(emulator.execute(0x00EE, vec![]), Ok(()));
        assert_eq!(emulator.cpu.PC, 0x200 + 2 * depth);
    }
    assert_eq!(emulator.execute(0x00EE, vec![]), Err(Fault::StackUnderflow));
}

#[test]
fn se_byte_skips_on_equality() {
    let mut emulator = machine();
    emulator.cpu.registers[3] = 0x42;
    emulator.cpu.PC = 0x202;
    assert_eq!(emulator.execute(0x3342, vec![]), Ok(()));
    assert_eq!(emulator.cpu.PC, 0x204);
    assert_eq!(emulator.execute(0x3343, vec![]), Ok(()));
    assert_eq!(emulator.cpu.PC, 0x204);
}

#[test]
fn sne_byte_skips_on_inequality() {
    let mut emulator = machine();
    emulator.cpu.registers[3] = 0x42;
    emulator.cpu.PC = 0x202;
    assert_eq!(emulator.execute(0x4342, vec![]), Ok(()));
    assert_eq!(emulator.cpu.PC, 0x202);
    assert_eq!(emulator.execute(0x4343, vec![]), Ok(()));
    assert_eq!(emulator.cpu.PC, 0x204);
}

#[test]
fn se_reg_and_sne_reg_compare_two_registers() {
    let mut emulator = machine();
    emulator.cpu.registers[1] = 7;
    emulator.cpu.registers[2] = 7;
    emulator.cpu.registers[3] = 8;
    emulator.cpu.PC = 0x300;
    assert_eq!(emulator.execute(0x5120, vec![]), Ok(()));
    assert_eq!(emulator.cpu.PC, 0x302);
    assert_eq!(emulator.execute(0x5130, vec![]), Ok(()));
    assert_eq!(emulator.cpu.PC, 0x302);
    assert_eq!(emulator.execute(0x9120, vec![]), Ok(()));
    assert_eq!(emulator.cpu.PC, 0x302);
    assert_eq!(emulator.execute(0x9130, vec![]), Ok(()));
    assert_eq!(emulator.cpu.PC, 0x304);
}

#[test]
fn a_skip_adds_two_and_wraps_at_sixteen_bits() {
    let mut emulator = machine();
    emulator.cpu.PC = 4094;
    assert_eq!(emulator.execute(0x3000, vec![]), Ok(()));
    assert_eq!(emulator.cpu.PC, 4096);
    emulator.cpu.PC = 0xFFFE;
    assert_eq!(emulator.execute(0x3000, vec![]), Ok(()));
    assert_eq!(emulator.cpu.PC, 0);
    emulator.cpu.PC = 0xFFFF;
    assert_eq!(emulator.execute(0x4001, vec![]), Ok(()));
    assert_eq!(emulator.cpu.PC, 1);
}

#[test]
fn a_skip_changes_nothing_but_the_program_counter() {
    let mut emulator = machine();
    emulator.cpu.registers[5] = 9;
    let mut expected = emulator.clone();
    expected.cpu.PC = 0x202;
    assert_eq!(emulator.execute(0x3509, vec![]), Ok(()));
    assert_eq!(emulator, expected);
}

#[test]
fn ld_byte_loads_a_register() {
    let mut emulator = machine();
    let mut expected = emulator.clone();
    expected.cpu.registers[0xA] = 0x7B;
    assert_eq!(emulator.execute(0x6A7B, vec![]), Ok(()));
    assert_eq!(emulator, expected);
}

#[test]
fn add_byte_wraps_and_leaves_the_flag() {
    let mut emulator = machine();
    emulator.cpu.registers[2] = 0xFF;
    emulator.cpu.registers[15] = 7;
    assert_eq!(emulator.execute(0x7202, vec![]), Ok(()));
    assert_eq!(emulator.cpu.registers[2], 1);
    assert_eq!(emulator.cpu.registers[15], 7);
    assert_eq!(emulator.execute(0x7210, vec![]), Ok(()));
    assert_eq!(emulator.cpu.registers[2], 0x11);
    assert_eq!(emulator.cpu.registers[15], 7);
    assert_eq!(emulator.execute(0x7FFF, vec![]), Ok(()));
    assert_eq!(emulator.cpu.registers[15], 6);
}

#[test]
fn ld_reg_copies_a_register() {
    let mut emulator = machine();
    emulator.cpu.registers[4] = 0x99;
    let mut expected = emulator.clone();
    expected.cpu.registers[3] = 0x99;
    assert_eq!(emulator.execute(0x8340, vec![]), Ok(()));
    assert_eq!(emulator, expected);
}

#[test]
fn or_and_xor_work_bit_by_bit() {
    let mut emulator = machine();
    emulator.cpu.registers[1] = 0b1100_1010;
    emulator.cpu.registers[2] = 0b1010_0110;
    emulator.cpu.registers[15] = 9;
    assert_eq!(emulator.execute(0x8121, vec![]), Ok(()));
    assert_eq!(emulator.cpu.registers[1], 0b1110_1110);
    emulator.cpu.registers[1] = 0b1100_1010;
    assert_eq!(emulator.execute(0x8122, vec![]), Ok(()));
    assert_eq!(emulator.cpu.registers[1], 0b1000_0010);
    emulator.cpu.registers[1] = 0b1100_1010;
    assert_eq!(emulator.execute(0x8123, vec![]), Ok(()));
    assert_eq!(emulator.cpu.registers[1], 0b0110_1100);
    assert_eq!(emulator.cpu.registers[2], 0b1010_0110);
    assert_eq!(emulator.cpu.registers[15], 9);
}

#[test]
fn add_reg_sets_the_carry() {
    let mut emulator = machine();
    emulator.cpu.registers[0] = 10;
    emulator.cpu.registers[1] = 5;
    emulator.cpu.registers[15] = 1;
    assert_eq!(emulator.execute(0x8014, vec![]), Ok(()));
    assert_eq!(emulator.cpu.registers[0], 15);
    assert_eq!(emulator.cpu.registers[15], 0);
    emulator.cpu.registers[0] = 200;
    emulator.cpu.registers[1] = 100;
    assert_eq!(emulator.execute(0x8014, vec![]), Ok(()));
    assert_eq!(emulator.cpu.registers[0], 44);
    assert_eq!(emulator.cpu.registers[15], 1);
    emulator.cpu.registers[0] = 255;
    emulator.cpu.registers[1] = 0;
    assert_eq!(emulator.execute(0x8014, vec![]), Ok(()));
    assert_eq!(emulator.cpu.registers[0], 255);
    assert_eq!(emulator.cpu.registers[15], 0);
    emulator.cpu.registers[0] = 255;
    emulator.cpu.registers[1] = 1;
    assert_eq!(emulator.execute(0x8014, vec![]), Ok(()));
    assert_eq!(emulator.cpu.registers[0], 0);
    assert_eq!(emulator.cpu.registers[15], 1);
}

#[test]
fn sub_sets_the_flag_where_the_first_is_greater() {
    let mut emulator = machine();
    emulator.cpu.registers[1] = 10;
    emulator.cpu.registers[2] = 3;
    assert_eq!(emulator.execute(0x8125, vec![]), Ok(()));
    assert_eq!(emulator.cpu.registers[1], 7);
    assert_eq!(emulator.cpu.registers[15], 1);
    emulator.cpu.registers[1] = 3;
    emulator.cpu.registers[2] = 10;
    assert_eq!(emulator.execute(0x8125, vec![]), Ok(()));
    assert_eq!(emulator.cpu.registers[1], 249);
    assert_eq!(emulator.cpu.registers[15], 0);
    emulator.cpu.registers[1] = 8;
    emulator.cpu.registers[2] = 8;
    emulator.cpu.registers[15] = 1;
    assert_eq!(emulator.execute(0x8125, vec![]), Ok(()));
    assert_eq!(emulator.cpu.registers[1], 0);
    assert_eq!(emulator.cpu.registers[15], 0);
}

#[test]
fn subn_subtracts_the_other_way() {
    let mut emulator = machine();
    emulator.cpu.registers[1] = 3;
    emulator.cpu.registers[2] = 10;
    assert_eq!(emulator.execute(0x8127, vec![]), Ok(()));
    assert_eq!(emulator.cpu.registers[1], 7);
    assert_eq!(emulator.cpu.registers[2], 10);
    assert_eq!(emulator.cpu.registers[15], 1);
    emulator.cpu.registers[1] = 10;
    emulator.cpu.registers[2] = 3;
    assert_eq!(emulator.execute(0x8127, vec![]), Ok(()));
    assert_eq!(emulator.cpu.registers[1], 249);
    assert_eq!(emulator.cpu.registers[15], 0);
    emulator.cpu.registers[1] = 8;
    emulator.cpu.registers[2] = 8;
    emulator.cpu.registers[15] = 1;
    assert_eq!(emulator.execute(0x8127, vec![]), Ok(()));
    assert_eq!(emulator.cpu.registers[1], 0);
    assert_eq!(emulator.cpu.registers[15], 0);
}

#[test]
fn shr_shifts_right_in_place() {
    let mut emulator = machine();
    emulator.cpu.registers[1] = 0b1000_0101;
    emulator.cpu.registers[2] = 0xFF;
    assert_eq!(emulator.execute(0x8126, vec![]), Ok(()));
    assert_eq!(emulator.cpu.registers[1], 0b0100_0010);
    assert_eq!(emulator.cpu.registers[2], 0xFF);
    assert_eq!(emulator.cpu.registers[15], 1);
    assert_eq!(emulator.execute(0x8126, vec![]), Ok(()));
    assert_eq!(emulator.cpu.registers[1], 0b0010_0001);
    assert_eq!(emulator.cpu.registers[15], 0);
}

#[test]
fn shl_shifts_left_in_place() {
    let mut emulator = machine();
    emulator.cpu.registers[1] = 0b1000_0101;
    emulator.cpu.registers[2] = 0xFF;
    assert_eq!(emulator.execute(0x812E, vec![]), Ok(()));
    assert_eq!(emulator.cpu.registers[1], 0b0000_1010);
    assert_eq!(emulator.cpu.registers[2], 0xFF);
    assert_eq!(emulator.cpu.registers[15], 1);
    assert_eq!(emulator.execute(0x812E, vec![]), Ok(()));
    assert_eq!(emulator.cpu.registers[1], 0b0001_0100);
    assert_eq!(emulator.cpu.registers[15], 0);
}

#[test]
fn the_flag_wins_where_the_target_is_the_flag_register() {
    let mut emulator = machine();
    emulator.cpu.registers[0] = 1;
    emulator.cpu.registers[15] = 200;
    assert_eq!(emulator.execute(0x8F04, vec![]), Ok(()));
    assert_eq!(emulator.cpu.registers[15], 0);
    emulator.cpu.registers[0] = 100;
    emulator.cpu.registers[15] = 200;
    assert_eq!(emulator.execute(0x8F04, vec![]), Ok(()));
    assert_eq!(emulator.cpu.registers[15], 1);
    emulator.cpu.registers[15] = 200;
    assert_eq!(emulator.execute(0x8F05, vec![]), Ok(()));
    assert_eq!(emulator.cpu.registers[15], 1);
    emulator.cpu.registers[15] = 50;
    assert_eq!(emulator.execute(0x8F05, vec![]), Ok(()));
    assert_eq!(emulator.cpu.registers[15], 0);
    emulator.cpu.registers[15] = 50;
    assert_eq!(emulator.execute(0x8F07, vec![]), Ok(()));
    assert_eq!(emulator.cpu.registers[15], 1);
    emulator.cpu.registers[15] = 0b0000_0111;
    assert_eq!(emulator.execute(0x8F06, vec![]), Ok(()));
    assert_eq!(emulator.cpu.registers[15], 1);
    emulator.cpu.registers[15] = 0b0000_0110;
    assert_eq!(emulator.execute(0x8F06, vec![]), Ok(()));
    assert_eq!(emulator.cpu.registers[15], 0);
    emulator.cpu.registers[15] = 0b1000_0001;
    assert_eq!(emulator.execute(0x8F0E, vec![]), Ok(()));
    assert_eq!(emulator.cpu.registers[15], 1);
    emulator.cpu.registers[15] = 0b0100_0001;
    assert_eq!(emulator.execute(0x8F0E, vec![]), Ok(()));
    assert_eq!(emulator.cpu.registers[15], 0);
}

#[test]
fn the_flag_is_read_before_it_is_written() {
    let mut emulator = machine();
    emulator.cpu.registers[1] = 5;
    emulator.cpu.registers[15] = 250;
    assert_eq!(emulator.execute(0x81F4, vec![]), Ok(()));
    assert_eq!(emulator.cpu.registers[1], 255);
    assert_eq!(emulator.cpu.registers[15], 0);
    emulator.cpu.registers[1] = 5;
    emulator.cpu.registers[15] = 3;
    assert_eq!(emulator.execute(0x81F5, vec![]), Ok(()));
    assert_eq!(emulator.cpu.registers[1], 2);
    assert_eq!(emulator.cpu.registers[15], 1);
}

#[test]
fn ld_i_loads_the_address_register() {
    let mut emulator = machine();
    let mut expected = emulator.clone();
    expected.cpu.VI = 0xABC;
    assert_eq!(emulator.execute(0xAABC, vec![]), Ok(()));
    assert_eq!(emulator, expected);
}

#[test]
fn jp_v0_adds_register_zero() {
    let mut emulator = machine();
    emulator.cpu.registers[0] = 0x10;
    let mut expected = emulator.clone();
    expected.cpu.PC = 0x310;
    assert_eq!(emulator.execute(0xB300, vec![]), Ok(()));
    assert_eq!(emulator, expected);
    emulator.cpu.registers[0] = 0xFF;
    assert_eq!(emulator.execute(0xBFFF, vec![]), Ok(()));
    assert_eq!(emulator.cpu.PC, 0xFFF + 0xFF);
}

#[test]
fn rnd_masks_the_random_byte() {
    let mut emulator = machine();
    for _ in 0..200 {
        assert_eq!(emulator.execute(0xC30F, vec![]), Ok(()));
        assert_eq!(emulator.cpu.registers[3] & 0xF0, 0);
    }
    emulator.cpu.registers[3] = 0xFF;
    assert_eq!(emulator.execute(0xC300, vec![]), Ok(()));
    assert_eq!(emulator.cpu.registers[3], 0);
}

#[test]
fn rnd_draws_more_than_one_value() {
    let mut emulator = machine();
    let mut seen = [false; 256];
    for _ in 0..2000 {
        assert_eq!(emulator.execute(0xC3FF, vec![]), Ok(()));
        seen[emulator.cpu.registers[3] as usize] = true;
    }
    assert!(seen.iter().filter(|hit| **hit).count() > 1);
}

#[test]
fn execute_instruction_uses_the_random_byte_it_is_given() {
    let mut emulator = machine();
    let mut expected = emulator.clone();
    expected.cpu.registers[4] = 0b1010_0000;
    let rnd = Instruction::Rnd { x: 4, byte: 0b1111_0000 };
    assert_eq!(emulator.execute_instruction(rnd, &vec![], 0b1010_1010), Ok(()));
    assert_eq!(emulator, expected);
}

#[test]
fn execute_instruction_ignores_the_random_byte_elsewhere() {
    let mut first = machine();
    let mut second = machine();
    let add = Instruction::AddByte { x: 1, byte: 3 };
    assert_eq!(first.execute_instruction(add, &vec![], 0), Ok(()));
    assert_eq!(second.execute_instruction(add, &vec![], 0xFF), Ok(()));
    assert_eq!(first, second);
    assert_eq!(first.cpu.registers[1], 3);
}

#[test]
fn drw_draws_a_glyph_and_clears_the_flag() {
    let mut emulator = machine();
    emulator.cpu.registers[15] = 1;
    emulator.cpu.registers[1] = 4;
    emulator.cpu.registers[2] = 2;
    emulator.cpu.VI = 10;
    assert_eq!(emulator.execute(0xD125, vec![]), Ok(()));
    assert_eq!(emulator.cpu.registers[15], 0);
    let glyph = [0xF0u8, 0x10, 0xF0, 0x80, 0xF0];
    for row in 0..32 {
        for column in 0..64 {
            let inside = (2..7).contains(&row) && (4..12).contains(&column);
            let expected = if inside { (glyph[row - 2] >> (7 - (column - 4))) & 1 } else { 0 };
            assert_eq!(emulator.screen.pixel_repr[row][column], expected);
        }
    }
}

#[test]
fn drw_sets_the_flag_on_erasure() {
    let mut emulator = machine();
    emulator.cpu.VI = 0;
    assert_eq!(emulator.execute(0xD005, vec![]), Ok(()));
    assert_eq!(emulator.cpu.registers[15], 0);
    assert_eq!(emulator.execute(0xD005, vec![]), Ok(()));
    assert_eq!(emulator.cpu.registers[15], 1);
    assert_eq!(emulator.screen.pixel_repr, [[0u8; 64]; 32]);
}

#[test]
fn drw_takes_the_position_from_the_flag_register_before_setting_it() {
    let mut emulator = machine();
    emulator.cpu.registers[15] = 8;
    emulator.cpu.VI = 0;
    assert_eq!(emulator.execute(0xDFF1, vec![]), Ok(()));
    assert_eq!(emulator.cpu.registers[15], 0);
    assert_eq!(&emulator.screen.pixel_repr[8][8..16], &[1, 1, 1, 1, 0, 0, 0, 0]);
}

#[test]
fn drw_outside_memory_is_a_fault_and_changes_nothing() {
    let mut emulator = machine();
    emulator.cpu.VI = 4094;
    emulator.cpu.registers[15] = 9;
    let before = emulator.clone();
    assert_eq!(emulator.execute(0xD003, vec![]), Err(Fault::AddressOutOfRange));
    assert_eq!(emulator, before);
    assert_eq!(emulator.execute(0xD002, vec![]), Ok(()));
    assert_eq!(emulator.cpu.registers[15], 0);
    emulator.cpu.VI = 0xFFFF;
    assert_eq!(emulator.execute(0xD001, vec![]), Err(Fault::AddressOutOfRange));
    emulator.cpu.VI = 4096;
    assert_eq!(emulator.execute(0xD000, vec![]), Ok(()));
    emulator.cpu.VI = 4097;
    assert_eq!(emulator.execute(0xD000, vec![]), Err(Fault::AddressOutOfRange));
}

#[test]
fn skp_skips_where_the_key_is_down() {
    let mut emulator = machine();
    emulator.cpu.registers[1] = 0xA;
    emulator.cpu.PC = 0x202;
    assert_eq!(emulator.execute(0xE19E, vec![press(Keycode::B)]), Ok(()));
    assert_eq!(emulator.cpu.PC, 0x202);
    assert_eq!(emulator.execute(0xE19E, vec![]), Ok(()));
    assert_eq!(emulator.cpu.PC, 0x202);
    assert_eq!(emulator.execute(0xE19E, vec![press(Keycode::B), press(Keycode::A)]), Ok(()));
    assert_eq!(emulator.cpu.PC, 0x204);
    assert_eq!(emulator.execute(0xE19E, vec![press(Keycode::A), press(Keycode::A)]), Ok(()));
    assert_eq!(emulator.cpu.PC, 0x206);
}

#[test]
fn sknp_skips_where_the_key_is_not_down() {
    let mut emulator = machine();
    emulator.cpu.registers[1] = 0x3;
    emulator.cpu.PC = 0x202;
    assert_eq!(emulator.execute(0xE1A1, vec![press(Keycode::Num3)]), Ok(()));
    assert_eq!(emulator.cpu.PC, 0x202);
    assert_eq!(emulator.execute(0xE1A1, vec![]), Ok(()));
    assert_eq!(emulator.cpu.PC, 0x204);
    assert_eq!(emulator.execute(0xE1A1, vec![press(Keycode::Num4), press(Keycode::Num5)]), Ok(()));
    assert_eq!(emulator.cpu.PC, 0x206);
}

#[test]
fn a_value_off_the_keypad_stands_for_the_space_bar() {
    let mut emulator = machine();
    emulator.cpu.registers[1] = 0x10;
    emulator.cpu.PC = 0x202;
    assert_eq!(emulator.execute(0xE19E, vec![press(Keycode::Space)]), Ok(()));
    assert_eq!(emulator.cpu.PC, 0x204);
    assert_eq!(emulator.execute(0xE19E, vec![press(Keycode::Num0)]), Ok(()));
    assert_eq!(emulator.cpu.PC, 0x204);
}

#[test]
fn the_timers_are_loaded_and_read() {
    let mut emulator = machine();
    emulator.cpu.registers[1] = 60;
    emulator.cpu.registers[2] = 30;
    assert_eq!(emulator.execute(0xF115, vec![]), Ok(()));
    assert_eq!(emulator.execute(0xF218, vec![]), Ok(()));
    assert_eq!(emulator.cpu.timer.DT, 60);
    assert_eq!(emulator.cpu.timer.ST, 30);
    assert_eq!(emulator.execute(0xF307, vec![]), Ok(()));
    assert_eq!(emulator.cpu.registers[3], 60);
    assert_eq!(emulator.cpu.timer.DT, 60);
}

#[test]
fn ld_key_takes_a_key_that_is_there() {
    let mut emulator = machine();
    let mut expected = emulator.clone();
    expected.cpu.registers[5] = 0xC;
    let events = vec![Event::Other, press(Keycode::Space), press(Keycode::C), press(Keycode::D)];
    assert_eq!(emulator.execute(0xF50A, events), Ok(()));
    assert_eq!(emulator, expected);
}

#[test]
fn ld_key_waits_where_no_key_is_there() {
    let mut emulator = machine();
    emulator.cpu.registers[5] = 0x77;
    let mut expected = emulator.clone();
    expected.cpu.state = CpuState::WaitingForKey { register: 5 };
    assert_eq!(emulator.execute(0xF50A, vec![press(Keycode::Space)]), Ok(()));
    assert_eq!(emulator, expected);
}

#[test]
fn add_i_wraps_at_sixteen_bits() {
    let mut emulator = machine();
    emulator.cpu.VI = 0x0FFE;
    emulator.cpu.registers[1] = 5;
    assert_eq!(emulator.execute(0xF11E, vec![]), Ok(()));
    assert_eq!(emulator.cpu.VI, 0x1003);
    emulator.cpu.VI = 0xFFFF;
    emulator.cpu.registers[1] = 2;
    emulator.cpu.registers[15] = 9;
    assert_eq!(emulator.execute(0xF11E, vec![]), Ok(()));
    assert_eq!(emulator.cpu.VI, 1);
    assert_eq!(emulator.cpu.registers[15], 9);
}

#[test]
fn ld_f_points_at_a_glyph() {
    let mut emulator = machine();
    emulator.cpu.registers[1] = 0xA;
    assert_eq!(emulator.execute(0xF129, vec![]), Ok(()));
    assert_eq!(emulator.cpu.VI, 50);
    emulator.cpu.registers[1] = 0;
    assert_eq!(emulator.execute(0xF129, vec![]), Ok(()));
    assert_eq!(emulator.cpu.VI, 0);
    emulator.cpu.registers[1] = 0xFF;
    assert_eq!(emulator.execute(0xF129, vec![]), Ok(()));
    assert_eq!(emulator.cpu.VI, 1275);
}

#[test]
fn ld_b_writes_the_decimal_digits() {
    let mut emulator = machine();
    emulator.cpu.VI = 0x300;
    emulator.cpu.registers[1] = 254;
    let mut expected = emulator.clone();
    expected.memory[0x300] = 2;
    expected.memory[0x301] = 5;
    expected.memory[0x302] = 4;
    assert_eq!(emulator.execute(0xF133, vec![]), Ok(()));
    assert_eq!(emulator, expected);
    emulator.cpu.registers[1] = 7;
    assert_eq!(emulator.execute(0xF133, vec![]), Ok(()));
    assert_eq!(&emulator.memory[0x300..0x303], &[0, 0, 7]);
    emulator.cpu.registers[1] = 90;
    assert_eq!(emulator.execute(0xF133, vec![]), Ok(()));
    assert_eq!(&emulator.memory[0x300..0x303], &[0, 9, 0]);
}

#[test]
fn ld_b_outside_memory_is_a_fault_and_changes_nothing() {
    let mut emulator = machine();
    emulator.cpu.registers[1] = 123;
    emulator.cpu.VI = 4094;
    let before = emulator.clone();
    assert_eq!(emulator.execute(0xF133, vec![]), Err(Fault::AddressOutOfRange));
    assert_eq!(emulator, before);
    emulator.cpu.VI = 4093;
    assert_eq!(emulator.execute(0xF133, vec![]), Ok(()));
    assert_eq!(&emulator.memory[4093..], &[1, 2, 3]);
}

#[test]
fn store_regs_writes_the_registers_up_to_x() {
    let mut emulator = machine();
    for i in 0..16 {
        emulator.cpu.registers[i] = 0x10 + i as u8;
    }
    emulator.cpu.VI = 0x400;
    let mut expected = emulator.clone();
    expected.memory[0x400] = 0x10;
    expected.memory[0x401] = 0x11;
    expected.memory[0x402] = 0x12;
    expected.memory[0x403] = 0x13;
    assert_eq!(emulator.execute(0xF355, vec![]), Ok(()));
    assert_eq!(emulator, expected);
    assert_eq!(emulator.execute(0xF055, vec![]), Ok(()));
    assert_eq!(emulator, expected);
    assert_eq!(emulator.execute(0xFF55, vec![]), Ok(()));
    assert_eq!(&emulator.memory[0x400..0x410], &emulator.cpu.registers[..]);
    assert_eq!(emulator.memory[0x410], 0);
    assert_eq!(emulator.cpu.VI, 0x400);
}

#[test]
fn load_regs_reads_the_registers_up_to_x() {
    let mut emulator = machine();
    for i in 0..16 {
        emulator.memory[0x500 + i] = 0xA0 + i as u8;
    }
    emulator.cpu.VI = 0x500;
    let mut expected = emulator.clone();
    expected.cpu.registers[0] = 0xA0;
    expected.cpu.registers[1] = 0xA1;
    expected.cpu.registers[2] = 0xA2;
    assert_eq!(emulator.execute(0xF265, vec![]), Ok(()));
    assert_eq!(emulator, expected);
    assert_eq!(emulator.execute(0xFF65, vec![]), Ok(()));
    assert_eq!(&emulator.cpu.registers[..], &emulator.memory[0x500..0x510]);
    assert_eq!(emulator.cpu.VI, 0x500);
}

#[test]
fn store_and_load_outside_memory_are_faults_and_change_nothing() {
    let mut emulator = machine();
    emulator.cpu.registers[0] = 1;
    emulator.cpu.registers[1] = 2;
    emulator.cpu.VI = 4095;
    let before = emulator.clone();
    assert_eq!(emulator.execute(0xF155, vec![]), Err(Fault::AddressOutOfRange));
    assert_eq!(emulator, before);
    assert_eq!(emulator.execute(0xF165, vec![]), Err(Fault::AddressOutOfRange));
    assert_eq!(emulator, before);
    assert_eq!(emulator.execute(0xF055, vec![]), Ok(()));
    assert_eq!(emulator.memory[4095], 1);
    emulator.memory[4095] = 0x5A;
    assert_eq!(emulator.execute(0xF065, vec![]), Ok(()));
    assert_eq!(emulator.cpu.registers[0], 0x5A);
    emulator.cpu.VI = 0xFFFF;
    assert_eq!(emulator.execute(0xF055, vec![]), Err(Fault::AddressOutOfRange));
    assert_eq!(emulator.execute(0xF065, vec![]), Err(Fault::AddressOutOfRange));
}

#[test]
fn an_unknown_opcode_is_reported_and_changes_nothing() {
    let mut emulator = machine();
    emulator.cpu.registers[1] = 7;
    emulator.cpu.registers[2] = 7;
    let before = emulator.clone();
    assert_eq!(emulator.execute(0x5123, vec![]), Err(Fault::UnknownOpcode(0x5123)));
    assert_eq!(emulator, before);
    assert_eq!(emulator.execute(0x8128, vec![]), Err(Fault::UnknownOpcode(0x8128)));
    assert_eq!(emulator.execute(0x9121, vec![]), Err(Fault::UnknownOpcode(0x9121)));
    assert_eq!(emulator.execute(0xE100, vec![]), Err(Fault::UnknownOpcode(0xE100)));
    assert_eq!(emulator.execute(0xF1FF, vec![]), Err(Fault::UnknownOpcode(0xF1FF)));
    assert_eq!(emulator, before);
}
