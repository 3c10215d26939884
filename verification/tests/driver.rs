use chip8::interpreter::{awaiting_input, step, tick, Fault, Status};
use chip8::memory::Memory;

fn machine_with(program: &[u8]) -> Memory {
    let mut memory = Memory::new();
    assert_eq!(memory.load_program(program), Ok(()));
    memory
}

#[test]
fn tick_counts_both_timers_down() {
    let mut memory = Memory::new();
    memory.delay = 5;
    memory.sound = 1;
    let before = memory.clone();
    tick(&mut memory);
    assert_eq!(memory.delay, 4);
    assert_eq!(memory.sound, 0);
    memory.delay = before.delay;
    memory.sound = before.sound;
    assert_eq!(memory, before);
}

#[test]
fn tick_leaves_a_timer_at_zero() {
    let mut memory = Memory::new();
    let before = memory.clone();
    tick(&mut memory);
    assert_eq!(memory.delay, 0);
    assert_eq!(memory.sound, 0);
    assert_eq!(memory, before);
}

#[test]
fn tick_from_the_highest_value() {
    let mut memory = Memory::new();
    memory.delay = 255;
    memory.sound = 255;
    for expected in (0..255u8).rev() {
        tick(&mut memory);
        assert_eq!(memory.delay, expected);
        assert_eq!(memory.sound, expected);
    }
    tick(&mut memory);
    assert_eq!(memory.delay, 0);
}

#[test]
fn step_does_not_touch_the_timers() {
    let mut memory = machine_with(&[0x61, 0x07, 0xF1, 0x15, 0x62, 0x01, 0x63, 0x01]);
    let mut keys = Vec::new();
    assert_eq!(step(&mut memory, &mut keys), Status::Continue);
    assert_eq!(step(&mut memory, &mut keys), Status::Continue);
    assert_eq!(memory.delay, 7);
    assert_eq!(step(&mut memory, &mut keys), Status::Continue);
    assert_eq!(step(&mut memory, &mut keys), Status::Continue);
    assert_eq!(memory.delay, 7);
}

#[test]
fn step_runs_a_program() {
    // V1 = 0xFF; V1 += 2; I = 0x300; store the digits of V1; jump back
    let mut memory = machine_with(&[0x61, 0xFF, 0x71, 0x02, 0xA3, 0x00, 0xF1, 0x33, 0x12, 0x00]);
    let mut keys = Vec::new();
    for _ in 0..4 {
        assert_eq!(step(&mut memory, &mut keys), Status::Continue);
    }
    assert_eq!(memory.registers[1], 0x01);
    assert_eq!(memory.registers[0xF], 1);
    assert_eq!(memory.i, 0x300);
    assert_eq!(memory.ram[0x300..0x303], [0, 0, 1]);
    assert_eq!(memory.program_counter, 0x208);
    assert_eq!(step(&mut memory, &mut keys), Status::Continue);
    assert_eq!(memory.program_counter, 0x200);
}

#[test]
fn step_halts_on_a_word_that_is_no_operation() {
    let mut memory = machine_with(&[0x61, 0x05, 0xFF, 0xFF]);
    let mut keys = vec![1];
    assert_eq!(step(&mut memory, &mut keys), Status::Continue);
    let before = memory.clone();
    assert_eq!(step(&mut memory, &mut keys), Status::Halt(Fault::DecodeInvalid));
    assert_eq!(memory, before);
    assert_eq!(keys, vec![1]);
    assert_eq!(step(&mut memory, &mut keys), Status::Halt(Fault::DecodeInvalid));
}

#[test]
fn step_halts_on_an_empty_memory() {
    let mut memory = Memory::new();
    let mut keys = Vec::new();
    assert_eq!(step(&mut memory, &mut keys), Status::Halt(Fault::DecodeInvalid));
}

#[test]
fn step_halts_on_a_stack_underflow() {
    let mut memory = machine_with(&[0x00, 0xEE]);
    let mut keys = Vec::new();
    let before = memory.clone();
    assert_eq!(step(&mut memory, &mut keys), Status::Halt(Fault::StackUnderflow));
    assert_eq!(memory, before);
}

#[test]
fn step_halts_on_a_stack_overflow() {
    // A subroutine that calls itself.
    let mut memory = machine_with(&[0x22, 0x00]);
    let mut keys = Vec::new();
    for depth in 1..=16 {
        assert_eq!(step(&mut memory, &mut keys), Status::Continue);
        assert_eq!(memory.stack_pointer, depth);
    }
    let before = memory.clone();
    assert_eq!(step(&mut memory, &mut keys), Status::Halt(Fault::StackOverflow));
    assert_eq!(memory, before);
}

#[test]
fn step_halts_where_the_program_counter_leaves_memory() {
    // Jump to the last byte of memory: no instruction word fits there.
    let mut memory = machine_with(&[0x1F, 0xFF]);
    let mut keys = Vec::new();
    assert_eq!(step(&mut memory, &mut keys), Status::Continue);
    assert_eq!(memory.program_counter, 0xFFF);
    let before = memory.clone();
    assert_eq!(step(&mut memory, &mut keys), Status::Halt(Fault::AddressOutOfRange));
    assert_eq!(memory, before);
}

#[test]
fn step_runs_the_last_instruction_of_memory() {
    let mut memory = Memory::new();
    memory.program_counter = 4094;
    memory.ram[4094] = 0x61;
    memory.ram[4095] = 0x2A;
    let mut keys = Vec::new();
    assert_eq!(step(&mut memory, &mut keys), Status::Continue);
    assert_eq!(memory.registers[1], 0x2A);
    assert_eq!(memory.program_counter, 4096);
    assert_eq!(step(&mut memory, &mut keys), Status::Halt(Fault::AddressOutOfRange));
}

#[test]
fn step_halts_where_the_index_register_would_leave_memory() {
    // I = 0xFFF; V1 = 1; I += V1
    let mut memory = machine_with(&[0xAF, 0xFF, 0x61, 0x01, 0xF1, 0x1E]);
    let mut keys = Vec::new();
    assert_eq!(step(&mut memory, &mut keys), Status::Continue);
    assert_eq!(step(&mut memory, &mut keys), Status::Continue);
    let before = memory.clone();
    assert_eq!(step(&mut memory, &mut keys), Status::Halt(Fault::AddressOutOfRange));
    assert_eq!(memory, before);
}

#[test]
fn the_key_wait_holds_the_program_counter_until_a_key_is_pressed() {
    let mut memory = machine_with(&[0xF3, 0x0A, 0x12, 0x02]);
    let mut keys = Vec::new();
    let before = memory.clone();
    for _ in 0..5 {
        assert!(awaiting_input(&memory, &keys));
        assert_eq!(step(&mut memory, &mut keys), Status::Continue);
        assert_eq!(memory, before);
    }
    let mut keys = vec![7, 2, 9];
    assert!(!awaiting_input(&memory, &keys));
    assert_eq!(step(&mut memory, &mut keys), Status::Continue);
    assert_eq!(memory.program_counter, 0x202);
    assert_eq!(memory.registers[3], 2);
    assert!(keys.is_empty());
    assert!(!awaiting_input(&memory, &keys));
}

#[test]
fn a_key_outside_the_keypad_does_not_end_the_key_wait() {
    let mut memory = machine_with(&[0xF3, 0x0A]);
    let mut keys = vec![16, 255];
    let before = memory.clone();
    assert!(awaiting_input(&memory, &keys));
    assert_eq!(step(&mut memory, &mut keys), Status::Continue);
    assert_eq!(memory, before);
    let mut keys = vec![16, 0];
    assert!(!awaiting_input(&memory, &keys));
    assert_eq!(step(&mut memory, &mut keys), Status::Continue);
    assert_eq!(memory.registers[3], 0);
    assert_eq!(memory.program_counter, 0x202);
}

#[test]
fn the_machine_awaits_input_at_the_key_wait_only() {
    let memory = machine_with(&[0x61, 0x05]);
    assert!(!awaiting_input(&memory, &Vec::new()));
    let mut outside = machine_with(&[0xF3, 0x0A]);
    outside.program_counter = 4095;
    assert!(!awaiting_input(&outside, &Vec::new()));
}

#[test]
fn step_draws_and_detects_the_collision() {
    // V1 = 5; I = glyph for V1; draw at (V2, V3) twice
    let mut memory =
        machine_with(&[0x61, 0x05, 0xF1, 0x29, 0xD2, 0x35, 0xD2, 0x35, 0x00, 0xE0]);
    let mut keys = Vec::new();
    for _ in 0..3 {
        assert_eq!(step(&mut memory, &mut keys), Status::Continue);
    }
    assert_eq!(memory.i, 25);
    assert_eq!(memory.display[0][0..8], [1, 1, 1, 1, 0, 0, 0, 0]);
    assert_eq!(memory.display[1][0..8], [1, 0, 0, 0, 0, 0, 0, 0]);
    assert_eq!(memory.registers[0xF], 0);
    assert_eq!(step(&mut memory, &mut keys), Status::Continue);
    assert_eq!(memory.display, [[0; 64]; 32]);
    assert_eq!(memory.registers[0xF], 1);
    assert_eq!(step(&mut memory, &mut keys), Status::Continue);
    assert_eq!(memory.program_counter, 0x20A);
}

#[test]
fn a_machine_stays_well_formed() {
    let mut memory =
        machine_with(&[0x61, 0x05, 0xF1, 0x29, 0xD2, 0x35, 0x22, 0x0A, 0x00, 0x00, 0xD1, 0x15]);
    let mut keys = vec![1, 2];
    for _ in 0..5 {
        assert!(memory.is_wf());
        assert_eq!(step(&mut memory, &mut keys), Status::Continue);
    }
    assert!(memory.is_wf());
}
