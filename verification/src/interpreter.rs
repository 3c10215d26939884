//! The executable interpreter: the decoder, the executor, the
//! fetch-decode-execute cycle and the timers.

use crate::instructions::{Address, Instruction};
use crate::display_constants::{HEIGHT, WIDTH};
use crate::memory::{Memory, STACK_SIZE};
use crate::semantics::{
    apply, awaits_key, bit_of, collides, cycle, decode, drawn, fetched, is_key, is_lowest_key,
    lower_nibble, lowest_key, release, row_pixel, sprite_pixel, stored, ticked, toggle,
    upper_nibble,
};
use rand::Rng;
use vstd::prelude::*;

verus! {

/// Why the machine stopped.
#[derive(Clone, Copy, Debug, PartialEq, Eq, Structural)]
pub enum Fault {
    /// The word at the program counter is no operation.
    DecodeInvalid,
    /// A call with sixteen return addresses already on the stack.
    StackOverflow,
    /// A return with no return address on the stack.
    StackUnderflow,
    /// The program counter or the index register reaches outside memory.
    AddressOutOfRange,
}

/// What one cycle reports to the host.
#[derive(Clone, Copy, Debug, PartialEq, Eq, Structural)]
pub enum Status {
    Continue,
    Halt(Fault),
}

/// Returns the top 4 bits of a u8
pub fn get_upper_bits(byte: u8) -> (nibble: u8)
    ensures
        nibble == upper_nibble(byte),
        nibble < 16,
{
    assert((byte & 0b1111_0000) >> 4 == byte / 16) by (bit_vector);
    (byte & 0b1111_0000) >> 4
}

/// Returns the lower 4 bits of a u8
pub fn get_lower_bits(byte: u8) -> (nibble: u8)
    ensures
        nibble == lower_nibble(byte),
        nibble < 16,
{
    assert(byte & 0b0000_1111 == byte % 16) by (bit_vector);
    byte & 0b0000_1111
}

/// The eight bits of a byte, the most significant first.
pub fn get_as_bits(byte: u8) -> (bits: [u8; 8])
    ensures
        forall|k: int| 0 <= k < 8 ==> #[trigger] bits[k] == bit_of(byte, k),
        forall|k: int| 0 <= k < 8 ==> #[trigger] bits[k] <= 1,
{
    let mut bits = [0; 8];
    bits[0] = (byte & 0b1000_0000) >> 7;
    bits[1] = (byte & 0b0100_0000) >> 6;
    bits[2] = (byte & 0b0010_0000) >> 5;
    bits[3] = (byte & 0b0001_0000) >> 4;
    bits[4] = (byte & 0b0000_1000) >> 3;
    bits[5] = (byte & 0b0000_0100) >> 2;
    bits[6] = (byte & 0b0000_0010) >> 1;
    bits[7] = byte & 0b0000_0001;
    assert({
        &&& (byte & 0b1000_0000) >> 7 == byte / 128 % 2
        &&& (byte & 0b0100_0000) >> 6 == byte / 64 % 2
        &&& (byte & 0b0010_0000) >> 5 == byte / 32 % 2
        &&& (byte & 0b0001_0000) >> 4 == byte / 16 % 2
        &&& (byte & 0b0000_1000) >> 3 == byte / 8 % 2
        &&& (byte & 0b0000_0100) >> 2 == byte / 4 % 2
        &&& (byte & 0b0000_0010) >> 1 == byte / 2 % 2
        &&& byte & 0b0000_0001 == byte % 2
    }) by (bit_vector);
    bits
}

/// Decodes one instruction word. Every word decodes: one that is no
/// operation gives `Instruction::Invalid`.
pub fn parse(high_byte: u8, low_byte: u8) -> (op: Instruction)
    ensures
        op == decode(high_byte, low_byte),
        op.wf(),
{
    match (
        get_upper_bits(high_byte),
        get_lower_bits(high_byte),
        get_upper_bits(low_byte),
        get_lower_bits(low_byte),
    ) {
        //00E0
        (0x0, 0x0, 0xE, 0x0) => Instruction::Clear,
        //00EE
        (0x0, 0x0, 0xE, 0xE) => Instruction::Return,
        //1nnn
        (0x1, high, middle, low) => Instruction::JumpTo(Address { high, middle, low }),
        //2nnn
        (0x2, high, middle, low) => Instruction::Call(Address { high, middle, low }),
        //3xkk
        (0x3, reg, _, _) => Instruction::SkipIfEqualByte { vx: reg as usize, byte: low_byte },
        //4xkk
        (0x4, reg, _, _) => Instruction::SkipIfNotEqualByte { vx: reg as usize, byte: low_byte },
        //5xy0
        (0x5, reg_x, reg_y, 0) => Instruction::SkipIfEqualReg {
            vx: reg_x as usize,
            vy: reg_y as usize,
        },
        //6xkk
        (0x6, reg, _, _) => Instruction::LoadByte { vx: reg as usize, byte: low_byte },
        //7xkk
        (0x7, reg, _, _) => Instruction::AddByte { vx: reg as usize, byte: low_byte },
        //8xy0
        (0x8, reg_x, reg_y, 0x0) => Instruction::LoadReg { vx: reg_x as usize, vy: reg_y as usize },
        //8xy1
        (0x8, reg_x, reg_y, 0x1) => Instruction::Or { vx: reg_x as usize, vy: reg_y as usize },
        //8xy2
        (0x8, reg_x, reg_y, 0x2) => Instruction::And { vx: reg_x as usize, vy: reg_y as usize },
        //8xy3
        (0x8, reg_x, reg_y, 0x3) => Instruction::Xor { vx: reg_x as usize, vy: reg_y as usize },
        //8xy4
        (0x8, reg_x, reg_y, 0x4) => Instruction::AddReg { vx: reg_x as usize, vy: reg_y as usize },
        //8xy5
        (0x8, reg_x, reg_y, 0x5) => Instruction::Subtract {
            vx: reg_x as usize,
            vy: reg_y as usize,
        },
        //8xy6
        (0x8, reg_x, _, 0x6) => Instruction::ShiftRight { vx: reg_x as usize },
        //8xy7
        (0x8, reg_x, reg_y, 0x7) => Instruction::SubtractReverse {
            vx: reg_x as usize,
            vy: reg_y as usize,
        },
        //8xyE
        (0x8, reg_x, _, 0xE) => Instruction::ShiftLeft { vx: reg_x as usize },
        //9xy0
        (0x9, reg_x, reg_y, 0x0) => Instruction::SkipIfNotEqualReg {
            vx: reg_x as usize,
            vy: reg_y as usize,
        },
        //Annn
        (0xA, high, middle, low) => Instruction::LoadAddress(Address { high, middle, low }),
        //Bnnn
        (0xB, high, middle, low) => Instruction::JumpOffset(Address { high, middle, low }),
        //Cxkk
        (0xC, reg_x, _, _) => Instruction::Random { vx: reg_x as usize, byte: low_byte },
        //Dxyn
        (0xD, reg_x, reg_y, nibble) => Instruction::Draw {
            vx: reg_x as usize,
            vy: reg_y as usize,
            nibble,
        },
        //Ex9E
        (0xE, reg_x, 0x9, 0xE) => Instruction::SkipIfKeyPressed { vx: reg_x as usize },
        //ExA1
        (0xE, reg_x, 0xA, 0x1) => Instruction::SkipIfNotKeyPressed { vx: reg_x as usize },
        //Fx07
        (0xF, reg_x, 0x0, 0x7) => Instruction::LoadDelay { vx: reg_x as usize },
        //Fx0A
        (0xF, reg_x, 0x0, 0xA) => Instruction::LoadKeyPressed { vx: reg_x as usize },
        //Fx15
        (0xF, reg_x, 0x1, 0x5) => Instruction::SetDelay { vx: reg_x as usize },
        //Fx18
        (0xF, reg_x, 0x1, 0x8) => Instruction::SetSound { vx: reg_x as usize },
        //Fx1E
        (0xF, reg_x, 0x1, 0xE) => Instruction::AddAddressOffset { vx: reg_x as usize },
        //Fx29
        (0xF, reg_x, 0x2, 0x9) => Instruction::LoadSprite { vx: reg_x as usize },
        //Fx33
        (0xF, reg_x, 0x3, 0x3) => Instruction::SetBCD { vx: reg_x as usize },
        //Fx55
        (0xF, reg_x, 0x5, 0x5) => Instruction::LoadRegisters { vx: reg_x as usize },
        //Fx65
        (0xF, reg_x, 0x6, 0x5) => Instruction::ReadRegisters { vx: reg_x as usize },
        _ => Instruction::Invalid,
    }
}

/// Whether `key` is among the pressed keys.
fn is_pressed(keys: &Vec<u8>, key: u8) -> (pressed: bool)
    ensures
        pressed == keys@.contains(key),
{
    let mut i: usize = 0;
    while i < keys.len()
        invariant
            i <= keys.len(),
            forall|j: int| 0 <= j < i ==> keys[j] != key,
        decreases keys.len() - i,
    {
        if keys[i] == key {
            return true;
        }
        i += 1;
    }
    false
}

/// Consumes every press of `key`; the other presses stay in their order.
fn release_key(keys: &mut Vec<u8>, key: u8)
    ensures
        final(keys)@ == release(old(keys)@, key),
{
    let mut kept: Vec<u8> = Vec::new();
    let mut i: usize = 0;
    proof {
        reveal(Seq::filter);
    }
    while i < keys.len()
        invariant
            i <= keys.len(),
            keys@ == old(keys)@,
            kept@ == release(keys@.take(i as int), key),
        decreases keys.len() - i,
    {
        proof {
            reveal(Seq::filter);
            assert(keys@.take(i + 1).drop_last() == keys@.take(i as int));
        }
        if keys[i] != key {
            kept.push(keys[i]);
        }
        i += 1;
    }
    proof {
        assert(keys@.take(keys.len() as int) == keys@);
    }
    *keys = kept;
}

/// The lowest pressed key of the keypad.
fn find_lowest_key(keys: &Vec<u8>) -> (found: Option<u8>)
    ensures
        found == lowest_key(keys@),
{
    let mut found: Option<u8> = None;
    let mut i: usize = 0;
    while i < keys.len()
        invariant
            i <= keys.len(),
            match found {
                Some(best) => {
                    &&& is_key(best)
                    &&& exists|j: int| 0 <= j < i && keys[j] == best
                    &&& forall|j: int| 0 <= j < i && is_key(#[trigger] keys[j]) ==> best <= keys[j]
                },
                None => forall|j: int| 0 <= j < i ==> !is_key(#[trigger] keys[j]),
            },
        decreases keys.len() - i,
    {
        let key = keys[i];
        if key < 16 {
            match found {
                Some(best) => {
                    if key < best {
                        found = Some(key);
                    }
                },
                None => {
                    found = Some(key);
                },
            }
        }
        i += 1;
    }
    proof {
        match found {
            Some(best) => {
                assert(is_lowest_key(keys@, best));
                let chosen = choose|key: u8| is_lowest_key(keys@, key);
                assert(is_lowest_key(keys@, chosen));
                let at = choose|j: int| 0 <= j < keys@.len() && keys@[j] == chosen;
                assert(keys@[at] == chosen);
            },
            None => {
                assert forall|key: u8| !is_lowest_key(keys@, key) by {
                    if is_key(key) && keys@.contains(key) {
                        let at = choose|j: int| 0 <= j < keys@.len() && keys@[j] == key;
                        assert(is_key(keys@[at]));
                    }
                }
            },
        }
    }
    found
}

/// Draws one row of a sprite into one row of the frame buffer, from
/// column `x` on, and says whether a set pixel was cleared.
fn draw_row(line: &mut [u8; 64], byte: u8, x: u8) -> (collided: bool)
    requires
        forall|column: int| 0 <= column < 64 ==> #[trigger] old(line)[column] <= 1,
    ensures
        forall|column: int|
            0 <= column < 64 ==> #[trigger] final(line)[column] == toggle(
                old(line)[column],
                row_pixel(byte, x as int, 8, column),
            ),
        forall|column: int| 0 <= column < 64 ==> #[trigger] final(line)[column] <= 1,
        collided == exists|column: int|
            0 <= column < 64 && old(line)[column] == 1 && #[trigger] row_pixel(
                byte,
                x as int,
                8,
                column,
            ) == 1,
{
    let bits = get_as_bits(byte);
    let mut collided = false;
    let mut bit: usize = 0;
    while bit < 8
        invariant
            bit <= 8,
            forall|k: int| 0 <= k < 8 ==> #[trigger] bits[k] == bit_of(byte, k),
            forall|k: int| 0 <= k < 8 ==> #[trigger] bits[k] <= 1,
            forall|column: int| 0 <= column < 64 ==> #[trigger] old(line)[column] <= 1,
            forall|column: int|
                0 <= column < 64 ==> #[trigger] line[column] == toggle(
                    old(line)[column],
                    row_pixel(byte, x as int, bit as int, column),
                ),
            collided == exists|column: int|
                0 <= column < 64 && old(line)[column] == 1 && #[trigger] row_pixel(
                    byte,
                    x as int,
                    bit as int,
                    column,
                ) == 1,
        decreases 8 - bit,
    {
        let col_index = (x as usize + bit) % WIDTH as usize;
        assert(col_index == (x + bit) % 64);
        let old_value = line[col_index];
        let mask = bits[bit];
        assert(old_value ^ mask == toggle(old_value, mask)) by (bit_vector)
            requires
                old_value <= 1,
                mask <= 1,
        ;
        line[col_index] = old_value ^ mask;
        if old_value == 1 && line[col_index] == 0 {
            collided = true;
        }
        proof {
            assert forall|column: int| 0 <= column < 64 implies #[trigger] line[column] == toggle(
                old(line)[column],
                row_pixel(byte, x as int, bit + 1, column),
            ) by {
                if column == col_index {
                    assert((column - x) % 64 == bit);
                } else {
                    assert((column - x) % 64 != bit);
                }
            }
            if collided {
                if old_value == 1 && mask == 1 {
                    assert(row_pixel(byte, x as int, bit + 1, col_index as int) == 1);
                } else {
                    let before = choose|column: int|
                        0 <= column < 64 && old(line)[column] == 1 && #[trigger] row_pixel(
                            byte,
                            x as int,
                            bit as int,
                            column,
                        ) == 1;
                    assert((before - x) % 64 != bit);
                    assert(row_pixel(byte, x as int, bit + 1, before) == 1);
                }
            } else {
                assert forall|column: int|
                    0 <= column < 64 && old(line)[column] == 1 implies #[trigger] row_pixel(
                    byte,
                    x as int,
                    bit + 1,
                    column,
                ) != 1 by {
                    if column != col_index {
                        assert((column - x) % 64 != bit);
                        assert(row_pixel(byte, x as int, bit + 1, column) == row_pixel(
                            byte,
                            x as int,
                            bit as int,
                            column,
                        ));
                    }
                }
            }
        }
        bit += 1;
    }
    collided
}

/// Draws the sprite of `height` rows that lies at the index register into
/// the frame buffer, its top left corner on (`x`, `y`), and says whether a
/// set pixel was cleared. Nothing but the frame buffer changes.
fn draw_sprite(memory: &mut Memory, x: u8, y: u8, height: u8) -> (collided: bool)
    requires
        old(memory).wf(),
        height < 16,
        old(memory).i + height <= 4096,
    ensures
        final(memory).wf(),
        *final(memory) == (Memory { display: final(memory).display, ..*old(memory) }),
        final(memory)@.display == drawn(old(memory)@, x as int, y as int, height as int),
        collided == collides(old(memory)@, x as int, y as int, height as int),
{
    let ghost before = memory@;
    let mut collided = false;
    let mut row: usize = 0;
    while row < height as usize
        invariant
            row <= height < 16,
            before == old(memory)@,
            before.index + height <= 4096,
            *memory == (Memory { display: memory.display, ..*old(memory) }),
            forall|r: int, c: int|
                0 <= r < 32 && 0 <= c < 64 ==> #[trigger] old(memory).display[r][c] <= 1,
            forall|r: int, c: int|
                0 <= r < 32 && 0 <= c < 64 ==> #[trigger] memory.display[r][c] == toggle(
                    old(memory).display[r][c],
                    sprite_pixel(before, x as int, y as int, row as int, r, c),
                ),
            collided == collides(before, x as int, y as int, row as int),
        decreases height - row,
    {
        let byte = memory.ram[memory.i as usize + row];
        let row_index = (y as usize + row) % HEIGHT as usize;
        assert(row_index == (y + row) % 32);
        let mut line = memory.display[row_index];
        let ghost line_before = line;
        proof {
            assert forall|c: int| 0 <= c < 64 implies #[trigger] line[c] == old(
                memory,
            ).display[row_index as int][c] by {
                assert((row_index - y) % 32 == row);
                assert(sprite_pixel(before, x as int, y as int, row as int, row_index as int, c)
                    == 0);
                assert(memory.display[row_index as int][c] == toggle(
                    old(memory).display[row_index as int][c],
                    sprite_pixel(before, x as int, y as int, row as int, row_index as int, c),
                ));
            }
            assert forall|c: int| 0 <= c < 64 implies #[trigger] line[c] <= 1 by {
                assert(old(memory).display[row_index as int][c] <= 1);
            }
        }
        let hit = draw_row(&mut line, byte, x);
        let ghost shown = memory.display;
        memory.display[row_index] = line;
        proof {
            assert(before.ram[before.index + row] == byte);
            assert forall|r: int, c: int| 0 <= r < 32 && 0 <= c < 64 implies #[trigger] memory.display[r][c]
                == toggle(
                old(memory).display[r][c],
                sprite_pixel(before, x as int, y as int, row + 1, r, c),
            ) by {
                if r == row_index {
                    assert((r - y) % 32 == row);
                    assert(line_before[c] == old(memory).display[r][c]);
                } else {
                    assert((r - y) % 32 != row);
                    assert(memory.display[r] == shown[r]);
                    assert(shown[r][c] == toggle(
                        old(memory).display[r][c],
                        sprite_pixel(before, x as int, y as int, row as int, r, c),
                    ));
                }
            }
            if hit {
                let c = choose|c: int|
                    0 <= c < 64 && line_before[c] == 1 && #[trigger] row_pixel(
                        byte,
                        x as int,
                        8,
                        c,
                    ) == 1;
                assert(line_before[c] == old(memory).display[row_index as int][c]);
                assert((row_index - y) % 32 == row);
                assert(sprite_pixel(before, x as int, y as int, row + 1, row_index as int, c)
                    == 1);
            }
            if collided {
                let (r, c) = choose|r: int, c: int|
                    0 <= r < 32 && 0 <= c < 64 && before.display[r][c] == 1
                        && #[trigger] sprite_pixel(before, x as int, y as int, row as int, r, c)
                        == 1;
                assert(sprite_pixel(before, x as int, y as int, row + 1, r, c) == 1);
            }
            if collides(before, x as int, y as int, row + 1) {
                let (r, c) = choose|r: int, c: int|
                    0 <= r < 32 && 0 <= c < 64 && before.display[r][c] == 1
                        && #[trigger] sprite_pixel(before, x as int, y as int, row + 1, r, c)
                        == 1;
                if (r - y) % 32 == row {
                    assert(r == row_index);
                    assert(line_before[c] == old(memory).display[r][c]);
                    assert(row_pixel(byte, x as int, 8, c) == 1);
                    assert(hit);
                } else {
                    assert(sprite_pixel(before, x as int, y as int, row as int, r, c) == 1);
                    assert(collided);
                }
            }
        }
        collided = collided || hit;
        row += 1;
    }
    proof {
        assert(memory@.display =~~= drawn(before, x as int, y as int, height as int));
    }
    collided
}

/// Stores the registers 0 to `vx` in memory from the index register on.
/// Nothing but memory changes.
fn store_registers(memory: &mut Memory, vx: usize)
    requires
        vx < 16,
        old(memory).i + vx <= 4095,
    ensures
        *final(memory) == (Memory { ram: final(memory).ram, ..*old(memory) }),
        final(memory).ram@ == stored(old(memory)@, vx as int),
{
    let ghost before = memory@;
    let mut index: usize = 0;
    while index < vx + 1
        invariant
            index <= vx + 1 <= 16,
            before == old(memory)@,
            before.index + vx <= 4095,
            *memory == (Memory { ram: memory.ram, ..*old(memory) }),
            memory.ram@ =~= stored(before, index - 1),
        decreases vx + 1 - index,
    {
        memory.ram[memory.i as usize + index] = memory.registers[index];
        index += 1;
    }
}

/// Reads the registers 0 to `vx` from memory at the index register on.
/// Nothing but the registers changes.
fn read_registers(memory: &mut Memory, vx: usize)
    requires
        vx < 16,
        old(memory).i + vx <= 4095,
    ensures
        *final(memory) == (Memory { registers: final(memory).registers, ..*old(memory) }),
        final(memory).registers@ == fetched(old(memory)@, vx as int),
{
    let ghost before = memory@;
    let mut index: usize = 0;
    while index < vx + 1
        invariant
            index <= vx + 1 <= 16,
            before == old(memory)@,
            before.index + vx <= 4095,
            *memory == (Memory { registers: memory.registers, ..*old(memory) }),
            memory.registers@ =~= fetched(before, index - 1),
        decreases vx + 1 - index,
    {
        memory.registers[index] = memory.ram[memory.i as usize + index];
        index += 1;
    }
}

/// A byte from `rand::thread_rng()`, drawn with `Rng::gen_range` from the
/// whole range of a byte. Trusted, and nothing is claimed of the byte: it
/// differs from call to call. The generator panics where the system gives
/// it no seed.
#[verifier::external_body]
fn random_byte() -> u8 {
    rand::thread_rng().gen_range(0..=u8::MAX)
}

/// Moves the program counter `by` bytes on.
fn step_over(memory: &mut Memory, by: u16)
    requires
        old(memory).program_counter <= 4094,
        by <= 4,
    ensures
        *final(memory) == (Memory {
            program_counter: (old(memory).program_counter + by) as u16,
            ..*old(memory)
        }),
        final(memory)@ == crate::semantics::advance(old(memory)@, by as int),
{
    memory.program_counter += by;
}

/// Goes on to the next instruction, or past it where `condition` holds.
fn skip_if(memory: &mut Memory, condition: bool)
    requires
        old(memory).program_counter <= 4094,
    ensures
        *final(memory) == (Memory {
            program_counter: final(memory).program_counter,
            ..*old(memory)
        }),
        final(memory)@ == crate::semantics::skip(old(memory)@, condition),
{
    if condition {
        memory.program_counter += 4
    } else {
        memory.program_counter += 2
    }
}

/// Writes `value` to register `vx` and goes on to the next instruction.
fn write_register(memory: &mut Memory, vx: usize, value: u8)
    requires
        old(memory).program_counter <= 4094,
        vx < 16,
    ensures
        *final(memory) == (Memory {
            program_counter: final(memory).program_counter,
            registers: final(memory).registers,
            ..*old(memory)
        }),
        final(memory)@ == crate::semantics::assign(old(memory)@, vx as int, value),
{
    memory.registers[vx] = value;
    memory.program_counter += 2;
}

/// Writes `flag` to the flag register, then `value` to register `vx`, and
/// goes on to the next instruction.
fn write_flagged(memory: &mut Memory, vx: usize, value: u8, flag: u8)
    requires
        old(memory).program_counter <= 4094,
        vx < 16,
    ensures
        *final(memory) == (Memory {
            program_counter: final(memory).program_counter,
            registers: final(memory).registers,
            ..*old(memory)
        }),
        final(memory)@ == crate::semantics::assign_with_flag(
            old(memory)@,
            vx as int,
            value,
            flag,
        ),
{
    memory.registers[0xF] = flag;
    memory.registers[vx] = value;
    memory.program_counter += 2;
}

/// The operations that move the program counter or the call stack and
/// nothing else: jumps, calls, returns and the skips on registers.
spec fn is_flow(op: Instruction) -> bool {
    op is Return
        || op is JumpTo
        || op is Call
        || op is JumpOffset
        || op is SkipIfEqualByte
        || op is SkipIfNotEqualByte
        || op is SkipIfEqualReg
        || op is SkipIfNotEqualReg
}

/// Applies a jump, a call, a return or a skip on registers.
fn execute_flow(
    memory: &mut Memory,
    instruction: Instruction,
) -> (result: Result<Option<(usize, usize, u8)>, Fault>)
    requires
        old(memory).wf(),
        old(memory)@.can_fetch(),
        instruction.wf(),
        is_flow(instruction),
    ensures
        final(memory).wf(),
        forall|keys: Seq<u8>, random: u8|
            {
                let next = #[trigger] apply(old(memory)@, instruction, keys, random);
                &&& final(memory)@ == next.state
                &&& keys == next.keys
                &&& result == next.result
            },
        result is Err ==> *final(memory) == *old(memory),
{
    match instruction {
        Instruction::Return => {
            if memory.stack_pointer == 0 {
                return Err(Fault::StackUnderflow);
            }
            memory.stack_pointer -= 1;
            memory.program_counter = memory.stack[memory.stack_pointer];
            proof {
                assert(memory@.stack =~= old(memory)@.stack.drop_last());
            }
        },
        Instruction::JumpTo(addr) => {
            memory.program_counter = addr.to_u16();
        },
        Instruction::Call(addr) => {
            if memory.stack_pointer >= STACK_SIZE {
                return Err(Fault::StackOverflow);
            }
            memory.stack[memory.stack_pointer] = memory.program_counter + 2;
            memory.stack_pointer += 1;
            memory.program_counter = addr.to_u16();
            proof {
                assert(memory@.stack =~= old(memory)@.stack.push(
                    (old(memory).program_counter + 2) as u16,
                ));
            }
        },
        Instruction::JumpOffset(addr) => {
            memory.program_counter = addr.to_u16() + memory.registers[0] as u16;
        },
        Instruction::SkipIfEqualByte { vx, byte } => {
            skip_if(memory, memory.registers[vx] == byte);
        },
        Instruction::SkipIfNotEqualByte { vx, byte } => {
            skip_if(memory, memory.registers[vx] != byte);
        },
        Instruction::SkipIfEqualReg { vx, vy } => {
            skip_if(memory, memory.registers[vx] == memory.registers[vy]);
        },
        Instruction::SkipIfNotEqualReg { vx, vy } => {
            skip_if(memory, memory.registers[vx] != memory.registers[vy]);
        },
        // No other operation is of this family.
        _ => {},
    }
    Ok(None)
}

/// The operations that write one register, and some of them the flag
/// register, and go on to the next instruction.
spec fn is_arithmetic(op: Instruction) -> bool {
    op is LoadByte
        || op is LoadReg
        || op is Or
        || op is And
        || op is Xor
        || op is AddByte
        || op is AddReg
        || op is Subtract
        || op is SubtractReverse
        || op is ShiftRight
        || op is ShiftLeft
        || op is Random
        || op is LoadDelay
}

/// Applies an operation that writes a register.
fn execute_arithmetic(
    memory: &mut Memory,
    instruction: Instruction,
    random: u8,
) -> (result: Result<Option<(usize, usize, u8)>, Fault>)
    requires
        old(memory).wf(),
        old(memory)@.can_fetch(),
        instruction.wf(),
        is_arithmetic(instruction),
    ensures
        final(memory).wf(),
        forall|keys: Seq<u8>|
            {
                let next = #[trigger] apply(old(memory)@, instruction, keys, random);
                &&& final(memory)@ == next.state
                &&& keys == next.keys
                &&& result == next.result
            },
        result is Err ==> *final(memory) == *old(memory),
{
    match instruction {
        Instruction::LoadByte { vx, byte } => {
            write_register(memory, vx, byte);
        },
        Instruction::LoadReg { vx, vy } => {
            write_register(memory, vx, memory.registers[vy]);
        },
        Instruction::Or { vx, vy } => {
            write_register(memory, vx, memory.registers[vx] | memory.registers[vy]);
        },
        Instruction::And { vx, vy } => {
            write_register(memory, vx, memory.registers[vx] & memory.registers[vy]);
        },
        Instruction::Xor { vx, vy } => {
            write_register(memory, vx, memory.registers[vx] ^ memory.registers[vy]);
        },
        Instruction::AddByte { vx, byte } => {
            let result = memory.registers[vx] as u16 + byte as u16;
            let carry: u8 = if result > 255 {
                1
            } else {
                0
            };
            write_flagged(memory, vx, (result % 256) as u8, carry);
        },
        Instruction::AddReg { vx, vy } => {
            let result = memory.registers[vx] as u16 + memory.registers[vy] as u16;
            let carry: u8 = if result > 255 {
                1
            } else {
                0
            };
            write_flagged(memory, vx, (result % 256) as u8, carry);
        },
        Instruction::Subtract { vx, vy } => {
            let minuend = memory.registers[vx];
            let subtrahend = memory.registers[vy];
            let no_borrow: u8 = if minuend >= subtrahend {
                1
            } else {
                0
            };
            write_flagged(memory, vx, minuend.wrapping_sub(subtrahend), no_borrow);
        },
        Instruction::SubtractReverse { vx, vy } => {
            let minuend = memory.registers[vy];
            let subtrahend = memory.registers[vx];
            let no_borrow: u8 = if minuend >= subtrahend {
                1
            } else {
                0
            };
            write_flagged(memory, vx, minuend.wrapping_sub(subtrahend), no_borrow);
        },
        Instruction::ShiftRight { vx } => {
            let value = memory.registers[vx];
            assert(value & 0b0000_0001 == value % 2) by (bit_vector);
            write_flagged(memory, vx, value / 2, value & 0b0000_0001);
        },
        Instruction::ShiftLeft { vx } => {
            let value = memory.registers[vx];
            assert(value >> 7 == value / 128) by (bit_vector);
            assert(value << 1 == (value * 2) % 256) by (bit_vector);
            write_flagged(memory, vx, value << 1, value >> 7);
        },
        Instruction::Random { vx, byte } => {
            write_register(memory, vx, random & byte);
        },
        Instruction::LoadDelay { vx } => {
            write_register(memory, vx, memory.delay);
        },
        // No other operation is of this family.
        _ => {},
    }
    Ok(None)
}

/// The operations that look at the pressed keys.
spec fn is_key_operation(op: Instruction) -> bool {
    op is SkipIfKeyPressed
        || op is SkipIfNotKeyPressed
        || op is LoadKeyPressed
}

/// Applies an operation that looks at the pressed keys.
fn execute_key_operation(
    memory: &mut Memory,
    instruction: Instruction,
    pressed_keys: &mut Vec<u8>,
) -> (result: Result<Option<(usize, usize, u8)>, Fault>)
    requires
        old(memory).wf(),
        old(memory)@.can_fetch(),
        instruction.wf(),
        is_key_operation(instruction),
    ensures
        final(memory).wf(),
        forall|random: u8|
            {
                let next = #[trigger] apply(old(memory)@, instruction, old(pressed_keys)@, random);
                &&& final(memory)@ == next.state
                &&& final(pressed_keys)@ == next.keys
                &&& result == next.result
            },
        result is Err ==> *final(memory) == *old(memory) && final(pressed_keys)@ == old(pressed_keys)@,
{
    match instruction {
        Instruction::SkipIfKeyPressed { vx } => {
            let key = memory.registers[vx];
            if is_pressed(pressed_keys, key) {
                release_key(pressed_keys, key);
                step_over(memory, 4);
            } else {
                step_over(memory, 2);
            }
        },
        Instruction::SkipIfNotKeyPressed { vx } => {
            let key = memory.registers[vx];
            if !is_pressed(pressed_keys, key) {
                step_over(memory, 4);
            } else {
                release_key(pressed_keys, key);
                step_over(memory, 2);
            }
        },
        Instruction::LoadKeyPressed { vx } => {
            match find_lowest_key(pressed_keys) {
                Some(key) => {
                    write_register(memory, vx, key);
                },
                None => {},
            }
            pressed_keys.clear();
        },
        // No other operation is of this family.
        _ => {},
    }
    Ok(None)
}

/// The operations that write the index register or a timer.
spec fn is_index_or_timer(op: Instruction) -> bool {
    op is LoadAddress
        || op is AddAddressOffset
        || op is LoadSprite
        || op is SetDelay
        || op is SetSound
}

/// Applies an operation that writes the index register or a timer.
fn execute_index_or_timer(
    memory: &mut Memory,
    instruction: Instruction,
) -> (result: Result<Option<(usize, usize, u8)>, Fault>)
    requires
        old(memory).wf(),
        old(memory)@.can_fetch(),
        instruction.wf(),
        is_index_or_timer(instruction),
    ensures
        final(memory).wf(),
        forall|keys: Seq<u8>, random: u8|
            {
                let next = #[trigger] apply(old(memory)@, instruction, keys, random);
                &&& final(memory)@ == next.state
                &&& keys == next.keys
                &&& result == next.result
            },
        result is Err ==> *final(memory) == *old(memory),
{
    match instruction {
        Instruction::LoadAddress(addr) => {
            memory.i = addr.to_u16();
            memory.program_counter += 2;
        },
        Instruction::AddAddressOffset { vx } => {
            let offset = memory.registers[vx] as u16;
            if memory.i > 4095 - offset {
                return Err(Fault::AddressOutOfRange);
            }
            memory.i += offset;
            memory.program_counter += 2;
        },
        Instruction::LoadSprite { vx } => {
            let digit = memory.registers[vx];
            if digit <= 0xF {
                memory.i = 5 * digit as u16;
            } else {
                memory.i = 0;
            }
            memory.program_counter += 2;
        },
        Instruction::SetDelay { vx } => {
            memory.delay = memory.registers[vx];
            memory.program_counter += 2;
        },
        Instruction::SetSound { vx } => {
            memory.sound = memory.registers[vx];
            memory.program_counter += 2;
        },
        // No other operation is of this family.
        _ => {},
    }
    Ok(None)
}

/// The operations that move bytes between the registers and memory.
spec fn is_transfer(op: Instruction) -> bool {
    op is SetBCD
        || op is LoadRegisters
        || op is ReadRegisters
}

/// Applies an operation that moves bytes between the registers and memory.
fn execute_transfer(
    memory: &mut Memory,
    instruction: Instruction,
) -> (result: Result<Option<(usize, usize, u8)>, Fault>)
    requires
        old(memory).wf(),
        old(memory)@.can_fetch(),
        instruction.wf(),
        is_transfer(instruction),
    ensures
        final(memory).wf(),
        forall|keys: Seq<u8>, random: u8|
            {
                let next = #[trigger] apply(old(memory)@, instruction, keys, random);
                &&& final(memory)@ == next.state
                &&& keys == next.keys
                &&& result == next.result
            },
        result is Err ==> *final(memory) == *old(memory),
{
    match instruction {
        Instruction::SetBCD { vx } => {
            let value = memory.registers[vx];
            if memory.i > 4093 {
                return Err(Fault::AddressOutOfRange);
            }
            let hundreds = value / 100;
            let tens = (value - (hundreds * 100)) / 10;
            let ones = value - (hundreds * 100) - (tens * 10);

            memory.ram[memory.i as usize] = hundreds;
            memory.ram[memory.i as usize + 1] = tens;
            memory.ram[memory.i as usize + 2] = ones;

            memory.program_counter += 2;
        },
        Instruction::LoadRegisters { vx } => {
            if memory.i as usize + vx > 4095 {
                return Err(Fault::AddressOutOfRange);
            }
            store_registers(memory, vx);
            memory.program_counter += 2;
        },
        Instruction::ReadRegisters { vx } => {
            if memory.i as usize + vx > 4095 {
                return Err(Fault::AddressOutOfRange);
            }
            read_registers(memory, vx);
            memory.program_counter += 2;
        },
        // No other operation is of this family.
        _ => {},
    }
    Ok(None)
}

/// The operations that write the frame buffer.
spec fn is_display_operation(op: Instruction) -> bool {
    op is Clear
        || op is Draw
}

/// Applies an operation that writes the frame buffer.
fn execute_display_operation(
    memory: &mut Memory,
    instruction: Instruction,
) -> (result: Result<Option<(usize, usize, u8)>, Fault>)
    requires
        old(memory).wf(),
        old(memory)@.can_fetch(),
        instruction.wf(),
        is_display_operation(instruction),
    ensures
        final(memory).wf(),
        forall|keys: Seq<u8>, random: u8|
            {
                let next = #[trigger] apply(old(memory)@, instruction, keys, random);
                &&& final(memory)@ == next.state
                &&& keys == next.keys
                &&& result == next.result
            },
        result is Err ==> *final(memory) == *old(memory),
{
    match instruction {
        Instruction::Clear => {
            memory.display = [[0; 64]; 32];
            memory.program_counter += 2;
            proof {
                assert(memory@.display =~~= crate::semantics::blank());
            }
        },
        Instruction::Draw { vx, vy, nibble: length } => {
            let x = memory.registers[vx];
            let y = memory.registers[vy];
            if memory.i as usize + length as usize > 4096 {
                return Err(Fault::AddressOutOfRange);
            }
            let collided = draw_sprite(memory, x, y, length);
            if collided {
                memory.registers[0xF] = 1;
            } else {
                memory.registers[0xF] = 0;
            }
            memory.program_counter += 2;
            return Ok(Some((x as usize, y as usize, length)));
        },
        // No other operation is of this family.
        _ => {},
    }
    Ok(None)
}

/// Applies one operation to the machine, with `random` as the byte that the
/// random operation draws: the machine and the pressed keys become what
/// [`apply`] says, and the result is the one it gives. A draw reports the
/// column and row of the sprite's top left corner and its height.
///
/// A refused operation changes nothing at all.
pub fn execute_with(
    memory: &mut Memory,
    instruction: Instruction,
    pressed_keys: &mut Vec<u8>,
    random: u8,
) -> (result: Result<Option<(usize, usize, u8)>, Fault>)
    requires
        old(memory).wf(),
        instruction.wf(),
    ensures
        final(memory).wf(),
        final(memory)@ == apply(old(memory)@, instruction, old(pressed_keys)@, random).state,
        final(pressed_keys)@ == apply(old(memory)@, instruction, old(pressed_keys)@, random).keys,
        result == apply(old(memory)@, instruction, old(pressed_keys)@, random).result,
        result is Err ==> *final(memory) == *old(memory) && final(pressed_keys)@ == old(
            pressed_keys,
        )@,
{
    if memory.program_counter > 4094 {
        return Err(Fault::AddressOutOfRange);
    }
    match instruction {
        Instruction::Invalid => Err(Fault::DecodeInvalid),
        Instruction::Return
        | Instruction::JumpTo(_)
        | Instruction::Call(_)
        | Instruction::JumpOffset(_)
        | Instruction::SkipIfEqualByte { .. }
        | Instruction::SkipIfNotEqualByte { .. }
        | Instruction::SkipIfEqualReg { .. }
        | Instruction::SkipIfNotEqualReg { .. } => execute_flow(memory, instruction),
        Instruction::LoadByte { .. }
        | Instruction::LoadReg { .. }
        | Instruction::Or { .. }
        | Instruction::And { .. }
        | Instruction::Xor { .. }
        | Instruction::AddByte { .. }
        | Instruction::AddReg { .. }
        | Instruction::Subtract { .. }
        | Instruction::SubtractReverse { .. }
        | Instruction::ShiftRight { .. }
        | Instruction::ShiftLeft { .. }
        | Instruction::Random { .. }
        | Instruction::LoadDelay { .. } => execute_arithmetic(memory, instruction, random),
        Instruction::SkipIfKeyPressed { .. }
        | Instruction::SkipIfNotKeyPressed { .. }
        | Instruction::LoadKeyPressed { .. } => execute_key_operation(memory, instruction, pressed_keys),
        Instruction::LoadAddress(_)
        | Instruction::AddAddressOffset { .. }
        | Instruction::LoadSprite { .. }
        | Instruction::SetDelay { .. }
        | Instruction::SetSound { .. } => execute_index_or_timer(memory, instruction),
        Instruction::SetBCD { .. }
        | Instruction::LoadRegisters { .. }
        | Instruction::ReadRegisters { .. } => execute_transfer(memory, instruction),
        Instruction::Clear | Instruction::Draw { .. } => execute_display_operation(memory, instruction),
    }
}

/// Applies one operation to the machine. The random operation draws its
/// byte from the thread's random number generator, so the outcome is the
/// one that [`apply`] gives for some byte; no other operation looks at
/// that byte.
///
/// A refused operation changes nothing at all.
pub fn execute(memory: &mut Memory, instruction: Instruction, pressed_keys: &mut Vec<u8>) -> (result:
    Result<Option<(usize, usize, u8)>, Fault>)
    requires
        old(memory).wf(),
        instruction.wf(),
    ensures
        final(memory).wf(),
        exists|random: u8|
            {
                let next = #[trigger] apply(old(memory)@, instruction, old(pressed_keys)@, random);
                &&& final(memory)@ == next.state
                &&& final(pressed_keys)@ == next.keys
                &&& result == next.result
            },
        result is Err ==> *final(memory) == *old(memory) && final(pressed_keys)@ == old(
            pressed_keys,
        )@,
{
    let random = match instruction {
        Instruction::Random { .. } => random_byte(),
        _ => 0,
    };
    execute_with(memory, instruction, pressed_keys, random)
}

/// One fetch-decode-execute cycle: the machine and the pressed keys
/// become what [`cycle`] says for some random byte, and the status is the
/// one it gives.
///
/// A cycle that halts changes nothing at all.
pub fn step(memory: &mut Memory, pressed_keys: &mut Vec<u8>) -> (status: Status)
    requires
        old(memory).wf(),
    ensures
        final(memory).wf(),
        exists|random: u8|
            {
                let next = #[trigger] cycle(old(memory)@, old(pressed_keys)@, random);
                &&& final(memory)@ == next.state
                &&& final(pressed_keys)@ == next.keys
                &&& status == next.status
            },
        status is Halt ==> *final(memory) == *old(memory) && final(pressed_keys)@ == old(
            pressed_keys,
        )@,
{
    if memory.program_counter > 4094 {
        proof {
            let idle = cycle(memory@, pressed_keys@, 0);
        }
        return Status::Halt(Fault::AddressOutOfRange);
    }
    let instruction = parse(
        memory.ram[memory.program_counter as usize],
        memory.ram[memory.program_counter as usize + 1],
    );
    let result = execute(memory, instruction, pressed_keys);
    proof {
        let random = choose|random: u8|
            {
                let next = #[trigger] apply(old(memory)@, instruction, old(pressed_keys)@, random);
                &&& memory@ == next.state
                &&& pressed_keys@ == next.keys
                &&& result == next.result
            };
        let next = cycle(old(memory)@, old(pressed_keys)@, random);
        assert(memory@ == next.state && pressed_keys@ == next.keys);
    }
    match result {
        Ok(_) => Status::Continue,
        Err(fault) => Status::Halt(fault),
    }
}

/// Whether the machine is waiting for a key: a cycle would find the key
/// wait at the program counter and no key of the keypad pressed, and would
/// leave the machine where it is.
pub fn awaiting_input(memory: &Memory, pressed_keys: &Vec<u8>) -> (waiting: bool)
    ensures
        waiting == awaits_key(memory@, pressed_keys@),
{
    if memory.program_counter > 4094 {
        return false;
    }
    let instruction = parse(
        memory.ram[memory.program_counter as usize],
        memory.ram[memory.program_counter as usize + 1],
    );
    match instruction {
        Instruction::LoadKeyPressed { .. } => find_lowest_key(pressed_keys).is_none(),
        _ => false,
    }
}

/// Advances both timers by one tick: each goes down by one and stays at 0
/// once it is there. Nothing else changes.
pub fn tick(memory: &mut Memory)
    ensures
        *final(memory) == (Memory {
            delay: ticked(old(memory).delay),
            sound: ticked(old(memory).sound),
            ..*old(memory)
        }),
{
    if memory.delay > 0 {
        memory.delay -= 1;
    }
    if memory.sound > 0 {
        memory.sound -= 1;
    }
}

} // verus!
