use chip8::display_constants::{F, HEIGHT, ONE, WIDTH, ZERO};
use chip8::interpreter::Fault;
use chip8::memory::{Memory, INTERPRETER_SIZE};

#[test]
fn a_new_machine_is_at_rest() {
    let memory = Memory::new();
    assert!(memory.is_wf());
    assert_eq!(memory.program_counter, 0x200);
    assert_eq!(memory.i, 0);
    assert_eq!(memory.stack_pointer, 0);
    assert_eq!(memory.delay, 0);
    assert_eq!(memory.sound, 0);
    assert_eq!(memory.registers, [0; 16]);
    assert_eq!(memory.display, [[0; 64]; 32]);
}

#[test]
fn the_frame_buffer_has_the_size_that_the_constants_give() {
    let memory = Memory::new();
    assert_eq!(memory.display.len(), HEIGHT as usize);
    assert_eq!(memory.display[0].len(), WIDTH as usize);
    assert_eq!(memory.ram.len(), 4096);
}

#[test]
fn a_new_machine_holds_the_glyphs() {
    let memory = Memory::new();
    assert_eq!(memory.ram[0..5], ZERO);
    assert_eq!(memory.ram[5..10], ONE);
    assert_eq!(memory.ram[75..80], F);
    assert_eq!(memory.ram[0..5], [0xF0, 0x90, 0x90, 0x90, 0xF0]);
    assert_eq!(memory.ram[50..55], [0xF0, 0x90, 0xF0, 0x90, 0x90]);
    assert!(memory.ram[80..].iter().all(|byte| *byte == 0));
}

#[test]
fn a_program_is_loaded_where_programs_start() {
    let mut memory = Memory::new();
    let untouched = memory.clone();
    assert_eq!(memory.load_program(&[0x65, 0x42, 0x12, 0x00]), Ok(()));
    assert_eq!(memory.ram[INTERPRETER_SIZE..INTERPRETER_SIZE + 4], [0x65, 0x42, 0x12, 0x00]);
    assert_eq!(memory.ram[INTERPRETER_SIZE + 4], 0);
    assert_eq!(memory.ram[..INTERPRETER_SIZE], untouched.ram[..INTERPRETER_SIZE]);
    assert_eq!(memory.program_counter, 0x200);
}

#[test]
fn the_largest_program_fills_memory_to_its_end() {
    let mut memory = Memory::new();
    let image = vec![0xAB; 4096 - 0x200];
    assert_eq!(memory.load_program(&image), Ok(()));
    assert_eq!(memory.ram[0x200], 0xAB);
    assert_eq!(memory.ram[4095], 0xAB);
    assert_eq!(memory.ram[0x1FF], 0);
}

#[test]
fn a_program_that_does_not_fit_is_refused() {
    let mut memory = Memory::new();
    let before = memory.clone();
    let image = vec![0xAB; 4096 - 0x200 + 1];
    assert_eq!(memory.load_program(&image), Err(Fault::AddressOutOfRange));
    assert_eq!(memory, before);
}

#[test]
fn an_empty_program_changes_nothing() {
    let mut memory = Memory::new();
    let before = memory.clone();
    assert_eq!(memory.load_program(&[]), Ok(()));
    assert_eq!(memory, before);
}

#[test]
fn a_stack_deeper_than_sixteen_is_not_well_formed() {
    let mut memory = Memory::new();
    memory.stack_pointer = 16;
    assert!(memory.is_wf());
    memory.stack_pointer = 17;
    assert!(!memory.is_wf());
}

#[test]
fn a_pixel_of_more_than_one_bit_is_not_well_formed() {
    let mut memory = Memory::new();
    memory.display[31][63] = 1;
    assert!(memory.is_wf());
    memory.display[31][63] = 2;
    assert!(!memory.is_wf());
    memory.display[31][63] = 0;
    memory.display[0][0] = 255;
    assert!(!memory.is_wf());
}
