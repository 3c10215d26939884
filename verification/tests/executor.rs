use chip8::instructions::{Address, Instruction};
use chip8::interpreter::{execute, execute_with, Fault};
use chip8::memory::Memory;

fn address(value: u16) -> Address {
    Address {
        high: (value >> 8) as u8 & 0xF,
        middle: (value >> 4) as u8 & 0xF,
        low: value as u8 & 0xF,
    }
}

fn run(memory: &mut Memory, instruction: Instruction) -> Result<Option<(usize, usize, u8)>, Fault> {
    let mut keys = Vec::new();
    execute_with(memory, instruction, &mut keys, 0)
}

fn lit_pixels(memory: &Memory) -> Vec<(usize, usize)> {
    let mut lit = Vec::new();
    for row in 0..32 {
        for column in 0..64 {
            if memory.display[row][column] == 1 {
                lit.push((row, column));
            }
        }
    }
    lit
}

#[test]
fn add_byte_wraps_and_carries() {
    let mut memory = Memory::new();
    memory.registers[4] = 0xFF;
    assert_eq!(run(&mut memory, Instruction::AddByte { vx: 4, byte: 0x02 }), Ok(None));
    assert_eq!(memory.registers[4], 0x01);
    assert_eq!(memory.registers[0xF], 1);
    assert_eq!(memory.program_counter, 0x202);
}

#[test]
fn add_byte_without_carry_clears_the_flag() {
    let mut memory = Memory::new();
    memory.registers[4] = 0x10;
    memory.registers[0xF] = 1;
    assert_eq!(run(&mut memory, Instruction::AddByte { vx: 4, byte: 0x02 }), Ok(None));
    assert_eq!(memory.registers[4], 0x12);
    assert_eq!(memory.registers[0xF], 0);
}

#[test]
fn add_byte_to_255_exactly_does_not_carry() {
    let mut memory = Memory::new();
    memory.registers[4] = 0xF0;
    assert_eq!(run(&mut memory, Instruction::AddByte { vx: 4, byte: 0x0F }), Ok(None));
    assert_eq!(memory.registers[4], 0xFF);
    assert_eq!(memory.registers[0xF], 0);
    assert_eq!(run(&mut memory, Instruction::AddByte { vx: 4, byte: 0x01 }), Ok(None));
    assert_eq!(memory.registers[4], 0x00);
    assert_eq!(memory.registers[0xF], 1);
}

#[test]
fn add_reg_wraps_and_carries() {
    let mut memory = Memory::new();
    memory.registers[1] = 200;
    memory.registers[2] = 100;
    assert_eq!(run(&mut memory, Instruction::AddReg { vx: 1, vy: 2 }), Ok(None));
    assert_eq!(memory.registers[1], 44);
    assert_eq!(memory.registers[2], 100);
    assert_eq!(memory.registers[0xF], 1);
    assert_eq!(run(&mut memory, Instruction::AddReg { vx: 1, vy: 2 }), Ok(None));
    assert_eq!(memory.registers[1], 144);
    assert_eq!(memory.registers[0xF], 0);
}

#[test]
fn subtract_with_borrow() {
    let mut memory = Memory::new();
    memory.registers[1] = 0x05;
    memory.registers[2] = 0x0A;
    assert_eq!(run(&mut memory, Instruction::Subtract { vx: 1, vy: 2 }), Ok(None));
    assert_eq!(memory.registers[1], 0xFB);
    assert_eq!(memory.registers[2], 0x0A);
    assert_eq!(memory.registers[0xF], 0);
    assert_eq!(memory.program_counter, 0x202);
}

#[test]
fn subtract_without_borrow() {
    let mut memory = Memory::new();
    memory.registers[1] = 0x0A;
    memory.registers[2] = 0x05;
    assert_eq!(run(&mut memory, Instruction::Subtract { vx: 1, vy: 2 }), Ok(None));
    assert_eq!(memory.registers[1], 0x05);
    assert_eq!(memory.registers[0xF], 1);
}

#[test]
fn subtract_of_equal_values_does_not_borrow() {
    let mut memory = Memory::new();
    memory.registers[1] = 0x33;
    memory.registers[2] = 0x33;
    assert_eq!(run(&mut memory, Instruction::Subtract { vx: 1, vy: 2 }), Ok(None));
    assert_eq!(memory.registers[1], 0);
    assert_eq!(memory.registers[0xF], 1);
}

#[test]
fn subtract_reverse_takes_the_first_register_from_the_second() {
    let mut memory = Memory::new();
    memory.registers[1] = 0x05;
    memory.registers[2] = 0x0A;
    assert_eq!(run(&mut memory, Instruction::SubtractReverse { vx: 1, vy: 2 }), Ok(None));
    assert_eq!(memory.registers[1], 0x05);
    assert_eq!(memory.registers[0xF], 1);
    memory.registers[1] = 0x0B;
    assert_eq!(run(&mut memory, Instruction::SubtractReverse { vx: 1, vy: 2 }), Ok(None));
    assert_eq!(memory.registers[1], 0xFF);
    assert_eq!(memory.registers[0xF], 0);
}

#[test]
fn the_result_is_what_the_flag_register_holds_where_it_is_the_destination() {
    let mut memory = Memory::new();
    memory.registers[0xF] = 0xFF;
    assert_eq!(run(&mut memory, Instruction::AddByte { vx: 0xF, byte: 0x03 }), Ok(None));
    assert_eq!(memory.registers[0xF], 0x02);
}

#[test]
fn shift_right_keeps_the_lowest_bit_in_the_flag() {
    let mut memory = Memory::new();
    memory.registers[3] = 0b0000_0101;
    assert_eq!(run(&mut memory, Instruction::ShiftRight { vx: 3 }), Ok(None));
    assert_eq!(memory.registers[3], 0b0000_0010);
    assert_eq!(memory.registers[0xF], 1);
    assert_eq!(run(&mut memory, Instruction::ShiftRight { vx: 3 }), Ok(None));
    assert_eq!(memory.registers[3], 0b0000_0001);
    assert_eq!(memory.registers[0xF], 0);
}

#[test]
fn shift_left_keeps_the_highest_bit_in_the_flag() {
    let mut memory = Memory::new();
    memory.registers[3] = 0b1100_0001;
    assert_eq!(run(&mut memory, Instruction::ShiftLeft { vx: 3 }), Ok(None));
    assert_eq!(memory.registers[3], 0b1000_0010);
    assert_eq!(memory.registers[0xF], 1);
    memory.registers[3] = 0b0100_0001;
    assert_eq!(run(&mut memory, Instruction::ShiftLeft { vx: 3 }), Ok(None));
    assert_eq!(memory.registers[3], 0b1000_0010);
    assert_eq!(memory.registers[0xF], 0);
}

#[test]
fn the_bitwise_operations_write_the_destination_only() {
    let mut memory = Memory::new();
    memory.registers[1] = 0b1100;
    memory.registers[2] = 0b1010;
    memory.registers[0xF] = 7;
    assert_eq!(run(&mut memory, Instruction::Or { vx: 1, vy: 2 }), Ok(None));
    assert_eq!(memory.registers[1], 0b1110);
    memory.registers[1] = 0b1100;
    assert_eq!(run(&mut memory, Instruction::And { vx: 1, vy: 2 }), Ok(None));
    assert_eq!(memory.registers[1], 0b1000);
    memory.registers[1] = 0b1100;
    assert_eq!(run(&mut memory, Instruction::Xor { vx: 1, vy: 2 }), Ok(None));
    assert_eq!(memory.registers[1], 0b0110);
    assert_eq!(memory.registers[2], 0b1010);
    assert_eq!(memory.registers[0xF], 7);
    assert_eq!(memory.program_counter, 0x206);
}

#[test]
fn load_byte_and_load_reg() {
    let mut memory = Memory::new();
    assert_eq!(run(&mut memory, Instruction::LoadByte { vx: 5, byte: 0x42 }), Ok(None));
    assert_eq!(memory.registers[5], 0x42);
    memory.registers[6] = 0x11;
    assert_eq!(run(&mut memory, Instruction::LoadReg { vx: 6, vy: 5 }), Ok(None));
    assert_eq!(memory.registers[6], 0x42);
    assert_eq!(memory.registers[5], 0x42);
    assert_eq!(memory.program_counter, 0x204);
}

#[test]
fn jump_sets_the_program_counter() {
    let mut memory = Memory::new();
    assert_eq!(run(&mut memory, Instruction::JumpTo(address(0x345))), Ok(None));
    assert_eq!(memory.program_counter, 0x345);
}

#[test]
fn jump_offset_adds_register_zero() {
    let mut memory = Memory::new();
    memory.registers[0] = 0xFF;
    assert_eq!(run(&mut memory, Instruction::JumpOffset(address(0x345))), Ok(None));
    assert_eq!(memory.program_counter, 0x345 + 0xFF);
}

#[test]
fn skips_go_four_bytes_on_where_the_condition_holds() {
    let mut memory = Memory::new();
    memory.registers[1] = 7;
    memory.registers[2] = 7;
    memory.registers[3] = 8;
    assert_eq!(run(&mut memory, Instruction::SkipIfEqualByte { vx: 1, byte: 7 }), Ok(None));
    assert_eq!(memory.program_counter, 0x204);
    assert_eq!(run(&mut memory, Instruction::SkipIfEqualByte { vx: 1, byte: 8 }), Ok(None));
    assert_eq!(memory.program_counter, 0x206);
    assert_eq!(run(&mut memory, Instruction::SkipIfNotEqualByte { vx: 1, byte: 8 }), Ok(None));
    assert_eq!(memory.program_counter, 0x20A);
    assert_eq!(run(&mut memory, Instruction::SkipIfNotEqualByte { vx: 1, byte: 7 }), Ok(None));
    assert_eq!(memory.program_counter, 0x20C);
    assert_eq!(run(&mut memory, Instruction::SkipIfEqualReg { vx: 1, vy: 2 }), Ok(None));
    assert_eq!(memory.program_counter, 0x210);
    assert_eq!(run(&mut memory, Instruction::SkipIfEqualReg { vx: 1, vy: 3 }), Ok(None));
    assert_eq!(memory.program_counter, 0x212);
    assert_eq!(run(&mut memory, Instruction::SkipIfNotEqualReg { vx: 1, vy: 3 }), Ok(None));
    assert_eq!(memory.program_counter, 0x216);
    assert_eq!(run(&mut memory, Instruction::SkipIfNotEqualReg { vx: 1, vy: 2 }), Ok(None));
    assert_eq!(memory.program_counter, 0x218);
}

#[test]
fn call_pushes_the_next_instruction_and_return_pops_it() {
    let mut memory = Memory::new();
    assert_eq!(run(&mut memory, Instruction::Call(address(0x400))), Ok(None));
    assert_eq!(memory.program_counter, 0x400);
    assert_eq!(memory.stack_pointer, 1);
    assert_eq!(memory.stack[0], 0x202);
    assert_eq!(run(&mut memory, Instruction::Call(address(0x500))), Ok(None));
    assert_eq!(memory.stack_pointer, 2);
    assert_eq!(memory.stack[1], 0x402);
    assert_eq!(run(&mut memory, Instruction::Return), Ok(None));
    assert_eq!(memory.program_counter, 0x402);
    assert_eq!(memory.stack_pointer, 1);
    assert_eq!(run(&mut memory, Instruction::Return), Ok(None));
    assert_eq!(memory.program_counter, 0x202);
    assert_eq!(memory.stack_pointer, 0);
}

#[test]
fn sixteen_nested_calls_succeed_and_the_next_overflows() {
    let mut memory = Memory::new();
    for depth in 0..16u16 {
        let target = 0x300 + 2 * depth;
        assert_eq!(run(&mut memory, Instruction::Call(address(target))), Ok(None));
        assert_eq!(memory.stack_pointer, depth as usize + 1);
        assert_eq!(memory.program_counter, target);
    }
    let before = memory.clone();
    assert_eq!(
        run(&mut memory, Instruction::Call(address(0x400))),
        Err(Fault::StackOverflow)
    );
    assert_eq!(memory, before);
    for depth in (0..16usize).rev() {
        assert_eq!(run(&mut memory, Instruction::Return), Ok(None));
        assert_eq!(memory.stack_pointer, depth);
    }
    assert_eq!(memory.program_counter, 0x202);
}

#[test]
fn return_on_an_empty_stack_underflows() {
    let mut memory = Memory::new();
    let before = memory.clone();
    assert_eq!(run(&mut memory, Instruction::Return), Err(Fault::StackUnderflow));
    assert_eq!(memory, before);
}

#[test]
fn the_invalid_operation_is_refused() {
    let mut memory = Memory::new();
    let before = memory.clone();
    assert_eq!(run(&mut memory, Instruction::Invalid), Err(Fault::DecodeInvalid));
    assert_eq!(memory, before);
}

#[test]
fn nothing_is_executed_where_the_program_counter_is_outside_memory() {
    let mut memory = Memory::new();
    memory.program_counter = 4095;
    let before = memory.clone();
    assert_eq!(
        run(&mut memory, Instruction::LoadByte { vx: 1, byte: 1 }),
        Err(Fault::AddressOutOfRange)
    );
    assert_eq!(memory, before);
    memory.program_counter = 4094;
    assert_eq!(run(&mut memory, Instruction::LoadByte { vx: 1, byte: 1 }), Ok(None));
    assert_eq!(memory.program_counter, 4096);
    assert_eq!(
        run(&mut memory, Instruction::JumpTo(address(0x200))),
        Err(Fault::AddressOutOfRange)
    );
}

#[test]
fn load_address_and_add_offset() {
    let mut memory = Memory::new();
    assert_eq!(run(&mut memory, Instruction::LoadAddress(address(0x123))), Ok(None));
    assert_eq!(memory.i, 0x123);
    memory.registers[2] = 0x10;
    assert_eq!(run(&mut memory, Instruction::AddAddressOffset { vx: 2 }), Ok(None));
    assert_eq!(memory.i, 0x133);
    assert_eq!(memory.program_counter, 0x204);
}

#[test]
fn the_index_register_does_not_go_beyond_memory() {
    let mut memory = Memory::new();
    memory.i = 4000;
    memory.registers[2] = 95;
    assert_eq!(run(&mut memory, Instruction::AddAddressOffset { vx: 2 }), Ok(None));
    assert_eq!(memory.i, 4095);
    memory.registers[2] = 1;
    let before = memory.clone();
    assert_eq!(
        run(&mut memory, Instruction::AddAddressOffset { vx: 2 }),
        Err(Fault::AddressOutOfRange)
    );
    assert_eq!(memory, before);
    memory.i = 65535;
    memory.registers[2] = 255;
    assert_eq!(
        run(&mut memory, Instruction::AddAddressOffset { vx: 2 }),
        Err(Fault::AddressOutOfRange)
    );
}

#[test]
fn load_sprite_points_at_the_glyph() {
    let mut memory = Memory::new();
    for digit in 0..16u8 {
        memory.registers[1] = digit;
        assert_eq!(run(&mut memory, Instruction::LoadSprite { vx: 1 }), Ok(None));
        assert_eq!(memory.i, 5 * digit as u16);
    }
    memory.registers[1] = 0x10;
    assert_eq!(run(&mut memory, Instruction::LoadSprite { vx: 1 }), Ok(None));
    assert_eq!(memory.i, 0);
}

#[test]
fn timers_are_set_and_read() {
    let mut memory = Memory::new();
    memory.registers[1] = 9;
    assert_eq!(run(&mut memory, Instruction::SetDelay { vx: 1 }), Ok(None));
    assert_eq!(memory.delay, 9);
    assert_eq!(memory.sound, 0);
    memory.registers[2] = 4;
    assert_eq!(run(&mut memory, Instruction::SetSound { vx: 2 }), Ok(None));
    assert_eq!(memory.sound, 4);
    assert_eq!(run(&mut memory, Instruction::LoadDelay { vx: 3 }), Ok(None));
    assert_eq!(memory.registers[3], 9);
    assert_eq!(memory.delay, 9);
    assert_eq!(memory.program_counter, 0x206);
}

#[test]
fn bcd_writes_hundreds_tens_and_ones() {
    let mut memory = Memory::new();
    memory.i = 0x300;
    memory.registers[1] = 254;
    assert_eq!(run(&mut memory, Instruction::SetBCD { vx: 1 }), Ok(None));
    assert_eq!(memory.ram[0x300..0x303], [2, 5, 4]);
    memory.registers[1] = 7;
    assert_eq!(run(&mut memory, Instruction::SetBCD { vx: 1 }), Ok(None));
    assert_eq!(memory.ram[0x300..0x303], [0, 0, 7]);
    memory.registers[1] = 100;
    assert_eq!(run(&mut memory, Instruction::SetBCD { vx: 1 }), Ok(None));
    assert_eq!(memory.ram[0x300..0x303], [1, 0, 0]);
    assert_eq!(memory.i, 0x300);
}

#[test]
fn bcd_needs_three_bytes_inside_memory() {
    let mut memory = Memory::new();
    memory.registers[1] = 123;
    memory.i = 4093;
    assert_eq!(run(&mut memory, Instruction::SetBCD { vx: 1 }), Ok(None));
    assert_eq!(memory.ram[4093..4096], [1, 2, 3]);
    memory.i = 4094;
    let before = memory.clone();
    assert_eq!(run(&mut memory, Instruction::SetBCD { vx: 1 }), Err(Fault::AddressOutOfRange));
    assert_eq!(memory, before);
}

#[test]
fn registers_are_stored_and_read_back() {
    let mut memory = Memory::new();
    for index in 0..16 {
        memory.registers[index] = 10 + index as u8;
    }
    memory.i = 0x300;
    assert_eq!(run(&mut memory, Instruction::LoadRegisters { vx: 3 }), Ok(None));
    assert_eq!(memory.ram[0x300..0x305], [10, 11, 12, 13, 0]);
    assert_eq!(memory.i, 0x300);
    memory.registers = [0; 16];
    memory.ram[0x304] = 99;
    assert_eq!(run(&mut memory, Instruction::ReadRegisters { vx: 2 }), Ok(None));
    assert_eq!(memory.registers[0..4], [10, 11, 12, 0]);
    assert_eq!(run(&mut memory, Instruction::ReadRegisters { vx: 4 }), Ok(None));
    assert_eq!(memory.registers[0..6], [10, 11, 12, 13, 99, 0]);
    assert_eq!(memory.program_counter, 0x206);
}

#[test]
fn register_transfers_stay_inside_memory() {
    let mut memory = Memory::new();
    memory.registers = [1; 16];
    memory.i = 4080;
    assert_eq!(run(&mut memory, Instruction::LoadRegisters { vx: 15 }), Ok(None));
    assert_eq!(memory.ram[4080..4096], [1; 16]);
    memory.i = 4081;
    let before = memory.clone();
    assert_eq!(
        run(&mut memory, Instruction::LoadRegisters { vx: 15 }),
        Err(Fault::AddressOutOfRange)
    );
    assert_eq!(
        run(&mut memory, Instruction::ReadRegisters { vx: 15 }),
        Err(Fault::AddressOutOfRange)
    );
    assert_eq!(memory, before);
    assert_eq!(run(&mut memory, Instruction::ReadRegisters { vx: 14 }), Ok(None));
}

#[test]
fn clear_blanks_the_frame_buffer() {
    let mut memory = Memory::new();
    memory.display[3][4] = 1;
    memory.display[31][63] = 1;
    assert_eq!(run(&mut memory, Instruction::Clear), Ok(None));
    assert_eq!(memory.display, [[0; 64]; 32]);
    assert_eq!(memory.program_counter, 0x202);
}

#[test]
fn draw_puts_the_glyph_on_the_frame_buffer() {
    let mut memory = Memory::new();
    memory.i = 5;
    memory.registers[1] = 10;
    memory.registers[2] = 20;
    assert_eq!(
        run(&mut memory, Instruction::Draw { vx: 1, vy: 2, nibble: 5 }),
        Ok(Some((10, 20, 5)))
    );
    // The glyph for 1: 0x20, 0x60, 0x20, 0x20, 0x70
    assert_eq!(
        lit_pixels(&memory),
        vec![(20, 12), (21, 11), (21, 12), (22, 12), (23, 12), (24, 11), (24, 12), (24, 13)]
    );
    assert_eq!(memory.registers[0xF], 0);
    assert_eq!(memory.program_counter, 0x202);
    assert_eq!(memory.i, 5);
}

#[test]
fn drawing_twice_clears_what_was_drawn() {
    let mut memory = Memory::new();
    memory.i = 0;
    memory.registers[1] = 3;
    memory.registers[2] = 4;
    let draw = Instruction::Draw { vx: 1, vy: 2, nibble: 5 };
    assert_eq!(run(&mut memory, draw), Ok(Some((3, 4, 5))));
    assert_eq!(lit_pixels(&memory).len(), 14);
    assert_eq!(memory.registers[0xF], 0);
    assert_eq!(run(&mut memory, draw), Ok(Some((3, 4, 5))));
    assert_eq!(memory.display, [[0; 64]; 32]);
    assert_eq!(memory.registers[0xF], 1);
}

#[test]
fn drawing_a_blank_sprite_twice_reports_no_collision() {
    let mut memory = Memory::new();
    memory.i = 0x300;
    memory.display[4][3] = 1;
    let draw = Instruction::Draw { vx: 1, vy: 2, nibble: 5 };
    assert_eq!(run(&mut memory, draw), Ok(Some((0, 0, 5))));
    assert_eq!(memory.registers[0xF], 0);
    assert_eq!(run(&mut memory, draw), Ok(Some((0, 0, 5))));
    assert_eq!(memory.registers[0xF], 0);
    assert_eq!(lit_pixels(&memory), vec![(4, 3)]);
}

#[test]
fn a_collision_clears_the_pixel_and_sets_the_flag() {
    let mut memory = Memory::new();
    memory.i = 0x300;
    memory.ram[0x300] = 0b1100_0000;
    memory.display[0][1] = 1;
    assert_eq!(
        run(&mut memory, Instruction::Draw { vx: 1, vy: 2, nibble: 1 }),
        Ok(Some((0, 0, 1)))
    );
    assert_eq!(lit_pixels(&memory), vec![(0, 0)]);
    assert_eq!(memory.registers[0xF], 1);
}

#[test]
fn a_sprite_wraps_round_the_right_edge() {
    let mut memory = Memory::new();
    memory.i = 0x300;
    memory.ram[0x300] = 0xFF;
    memory.registers[1] = 60;
    memory.registers[2] = 0;
    assert_eq!(
        run(&mut memory, Instruction::Draw { vx: 1, vy: 2, nibble: 1 }),
        Ok(Some((60, 0, 1)))
    );
    assert_eq!(
        lit_pixels(&memory),
        vec![(0, 0), (0, 1), (0, 2), (0, 3), (0, 60), (0, 61), (0, 62), (0, 63)]
    );
}

#[test]
fn a_sprite_wraps_round_the_lower_edge() {
    let mut memory = Memory::new();
    memory.i = 0x300;
    memory.ram[0x300] = 0x80;
    memory.ram[0x301] = 0x80;
    memory.registers[1] = 5;
    memory.registers[2] = 31;
    assert_eq!(
        run(&mut memory, Instruction::Draw { vx: 1, vy: 2, nibble: 2 }),
        Ok(Some((5, 31, 2)))
    );
    assert_eq!(lit_pixels(&memory), vec![(0, 5), (31, 5)]);
}

#[test]
fn coordinates_beyond_the_frame_buffer_wrap_too() {
    let mut memory = Memory::new();
    memory.i = 0x300;
    memory.ram[0x300] = 0x80;
    memory.registers[1] = 64 + 7;
    memory.registers[2] = 32 * 3 + 2;
    assert_eq!(
        run(&mut memory, Instruction::Draw { vx: 1, vy: 2, nibble: 1 }),
        Ok(Some((71, 98, 1)))
    );
    assert_eq!(lit_pixels(&memory), vec![(2, 7)]);
}

#[test]
fn a_sprite_of_no_rows_draws_nothing() {
    let mut memory = Memory::new();
    memory.registers[0xF] = 1;
    assert_eq!(
        run(&mut memory, Instruction::Draw { vx: 1, vy: 2, nibble: 0 }),
        Ok(Some((0, 0, 0)))
    );
    assert_eq!(memory.display, [[0; 64]; 32]);
    assert_eq!(memory.registers[0xF], 0);
}

#[test]
fn a_sprite_is_read_inside_memory_only() {
    let mut memory = Memory::new();
    memory.i = 4094;
    assert!(run(&mut memory, Instruction::Draw { vx: 1, vy: 2, nibble: 2 }).is_ok());
    let before = memory.clone();
    assert_eq!(
        run(&mut memory, Instruction::Draw { vx: 1, vy: 2, nibble: 3 }),
        Err(Fault::AddressOutOfRange)
    );
    assert_eq!(memory, before);
}

#[test]
fn a_skip_on_a_pressed_key_consumes_the_press() {
    let mut memory = Memory::new();
    memory.registers[1] = 0xA;
    let mut keys = vec![3, 0xA, 7, 0xA];
    let skip = Instruction::SkipIfKeyPressed { vx: 1 };
    assert_eq!(execute_with(&mut memory, skip, &mut keys, 0), Ok(None));
    assert_eq!(memory.program_counter, 0x204);
    assert_eq!(keys, vec![3, 7]);
    assert_eq!(execute_with(&mut memory, skip, &mut keys, 0), Ok(None));
    assert_eq!(memory.program_counter, 0x206);
    assert_eq!(keys, vec![3, 7]);
    let skip_not = Instruction::SkipIfNotKeyPressed { vx: 1 };
    assert_eq!(execute_with(&mut memory, skip_not, &mut keys, 0), Ok(None));
    assert_eq!(memory.program_counter, 0x20A);
    assert_eq!(keys, vec![3, 7]);
}

#[test]
fn a_skip_on_a_key_that_is_not_pressed() {
    let mut memory = Memory::new();
    memory.registers[1] = 0xA;
    let mut keys = vec![3, 0xA, 7];
    let skip_not = Instruction::SkipIfNotKeyPressed { vx: 1 };
    assert_eq!(execute_with(&mut memory, skip_not, &mut keys, 0), Ok(None));
    assert_eq!(memory.program_counter, 0x202);
    assert_eq!(keys, vec![3, 7]);
    assert_eq!(execute_with(&mut memory, skip_not, &mut keys, 0), Ok(None));
    assert_eq!(memory.program_counter, 0x206);
}

#[test]
fn the_key_wait_takes_the_lowest_pressed_key() {
    let mut memory = Memory::new();
    let wait = Instruction::LoadKeyPressed { vx: 4 };
    let mut keys = Vec::new();
    assert_eq!(execute_with(&mut memory, wait, &mut keys, 0), Ok(None));
    assert_eq!(memory, Memory::new());
    let mut keys = vec![200, 16];
    assert_eq!(execute_with(&mut memory, wait, &mut keys, 0), Ok(None));
    assert_eq!(memory, Memory::new());
    assert!(keys.is_empty());
    let mut keys = vec![9, 200, 2, 0xF, 2];
    assert_eq!(execute_with(&mut memory, wait, &mut keys, 0), Ok(None));
    assert_eq!(memory.registers[4], 2);
    assert_eq!(memory.program_counter, 0x202);
    assert!(keys.is_empty());
}

#[test]
fn the_random_operation_masks_the_byte_that_it_is_given() {
    let mut memory = Memory::new();
    let mut keys = Vec::new();
    let random = Instruction::Random { vx: 2, byte: 0x3C };
    assert_eq!(execute_with(&mut memory, random, &mut keys, 0xFF), Ok(None));
    assert_eq!(memory.registers[2], 0x3C);
    assert_eq!(execute_with(&mut memory, random, &mut keys, 0xA5), Ok(None));
    assert_eq!(memory.registers[2], 0x24);
    assert_eq!(memory.program_counter, 0x204);
}

#[test]
fn the_random_operation_draws_a_byte_and_masks_it() {
    let mut memory = Memory::new();
    let mut keys = Vec::new();
    let mut seen = [false; 16];
    for _ in 0..2000 {
        memory.program_counter = 0x200;
        let random = Instruction::Random { vx: 2, byte: 0x0F };
        assert_eq!(execute(&mut memory, random, &mut keys), Ok(None));
        assert!(memory.registers[2] < 16);
        assert_eq!(memory.program_counter, 0x202);
        seen[memory.registers[2] as usize] = true;
    }
    assert!(seen.iter().filter(|value| **value).count() > 1);
    let zero = Instruction::Random { vx: 2, byte: 0x00 };
    assert_eq!(execute(&mut memory, zero, &mut keys), Ok(None));
    assert_eq!(memory.registers[2], 0);
}

#[test]
fn the_random_operation_can_draw_every_byte() {
    let mut memory = Memory::new();
    let mut keys = Vec::new();
    let mut drew_255 = false;
    for _ in 0..20000 {
        memory.program_counter = 0x200;
        let random = Instruction::Random { vx: 2, byte: 0xFF };
        assert_eq!(execute(&mut memory, random, &mut keys), Ok(None));
        drew_255 = drew_255 || memory.registers[2] == 255;
    }
    assert!(drew_255);
}

#[test]
fn execute_does_what_execute_with_does_for_the_other_operations() {
    let mut first = Memory::new();
    let mut second = Memory::new();
    let mut keys = Vec::new();
    let program = [
        Instruction::LoadByte { vx: 1, byte: 200 },
        Instruction::AddByte { vx: 1, byte: 100 },
        Instruction::LoadAddress(address(0x300)),
        Instruction::SetBCD { vx: 1 },
        Instruction::Call(address(0x400)),
        Instruction::Draw { vx: 1, vy: 2, nibble: 3 },
        Instruction::Return,
    ];
    for instruction in program {
        let one = execute(&mut first, instruction, &mut keys);
        let other = execute_with(&mut second, instruction, &mut keys, 0x5A);
        assert_eq!(one, other);
        assert_eq!(first, second);
    }
}
