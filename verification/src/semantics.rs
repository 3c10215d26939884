//! The machine's transition function, as mathematics.
//!
//! [`apply`] says what one operation does to a [`MachineState`] and to the
//! pressed keys, and [`cycle`] what one fetch-decode-execute cycle does.
//! The executable interpreter is proved to compute exactly these.

use crate::instructions::Instruction;
use crate::interpreter::{Fault, Status};
use crate::memory::MachineState;
use vstd::prelude::*;

verus! {

/// The upper nibble of a byte.
pub open spec fn upper_nibble(byte: u8) -> u8 {
    byte / 16
}

/// The lower nibble of a byte.
pub open spec fn lower_nibble(byte: u8) -> u8 {
    byte % 16
}

/// Bit `position` of `byte`, counted from the most significant bit, which
/// is the leftmost pixel of a sprite row.
pub open spec fn bit_of(byte: u8, position: int) -> u8 {
    if position == 0 {
        byte / 128 % 2
    } else if position == 1 {
        byte / 64 % 2
    } else if position == 2 {
        byte / 32 % 2
    } else if position == 3 {
        byte / 16 % 2
    } else if position == 4 {
        byte / 8 % 2
    } else if position == 5 {
        byte / 4 % 2
    } else if position == 6 {
        byte / 2 % 2
    } else {
        byte % 2
    }
}

/// The operation that a two-byte instruction word stands for. The first
/// nibble selects the family; the families 0, 8, E and F are told apart by
/// the later nibbles. A twelve-bit address is the last three nibbles.
pub open spec fn decode(high_byte: u8, low_byte: u8) -> Instruction {
    let family = upper_nibble(high_byte);
    let x = lower_nibble(high_byte) as usize;
    let y = upper_nibble(low_byte) as usize;
    let last = lower_nibble(low_byte);
    let address = crate::instructions::Address {
        high: lower_nibble(high_byte),
        middle: upper_nibble(low_byte),
        low: lower_nibble(low_byte),
    };
    if family == 0x0 {
        if high_byte == 0x00 && low_byte == 0xE0 {
            Instruction::Clear
        } else if high_byte == 0x00 && low_byte == 0xEE {
            Instruction::Return
        } else {
            Instruction::Invalid
        }
    } else if family == 0x1 {
        Instruction::JumpTo(address)
    } else if family == 0x2 {
        Instruction::Call(address)
    } else if family == 0x3 {
        Instruction::SkipIfEqualByte { vx: x, byte: low_byte }
    } else if family == 0x4 {
        Instruction::SkipIfNotEqualByte { vx: x, byte: low_byte }
    } else if family == 0x5 {
        if last == 0x0 {
            Instruction::SkipIfEqualReg { vx: x, vy: y }
        } else {
            Instruction::Invalid
        }
    } else if family == 0x6 {
        Instruction::LoadByte { vx: x, byte: low_byte }
    } else if family == 0x7 {
        Instruction::AddByte { vx: x, byte: low_byte }
    } else if family == 0x8 {
        if last == 0x0 {
            Instruction::LoadReg { vx: x, vy: y }
        } else if last == 0x1 {
            Instruction::Or { vx: x, vy: y }
        } else if last == 0x2 {
            Instruction::And { vx: x, vy: y }
        } else if last == 0x3 {
            Instruction::Xor { vx: x, vy: y }
        } else if last == 0x4 {
            Instruction::AddReg { vx: x, vy: y }
        } else if last == 0x5 {
            Instruction::Subtract { vx: x, vy: y }
        } else if last == 0x6 {
            Instruction::ShiftRight { vx: x }
        } else if last == 0x7 {
            Instruction::SubtractReverse { vx: x, vy: y }
        } else if last == 0xE {
            Instruction::ShiftLeft { vx: x }
        } else {
            Instruction::Invalid
        }
    } else if family == 0x9 {
        if last == 0x0 {
            Instruction::SkipIfNotEqualReg { vx: x, vy: y }
        } else {
            Instruction::Invalid
        }
    } else if family == 0xA {
        Instruction::LoadAddress(address)
    } else if family == 0xB {
        Instruction::JumpOffset(address)
    } else if family == 0xC {
        Instruction::Random { vx: x, byte: low_byte }
    } else if family == 0xD {
        Instruction::Draw { vx: x, vy: y, nibble: last }
    } else if family == 0xE {
        if low_byte == 0x9E {
            Instruction::SkipIfKeyPressed { vx: x }
        } else if low_byte == 0xA1 {
            Instruction::SkipIfNotKeyPressed { vx: x }
        } else {
            Instruction::Invalid
        }
    } else {
        if low_byte == 0x07 {
            Instruction::LoadDelay { vx: x }
        } else if low_byte == 0x0A {
            Instruction::LoadKeyPressed { vx: x }
        } else if low_byte == 0x15 {
            Instruction::SetDelay { vx: x }
        } else if low_byte == 0x18 {
            Instruction::SetSound { vx: x }
        } else if low_byte == 0x1E {
            Instruction::AddAddressOffset { vx: x }
        } else if low_byte == 0x29 {
            Instruction::LoadSprite { vx: x }
        } else if low_byte == 0x33 {
            Instruction::SetBCD { vx: x }
        } else if low_byte == 0x55 {
            Instruction::LoadRegisters { vx: x }
        } else if low_byte == 0x65 {
            Instruction::ReadRegisters { vx: x }
        } else {
            Instruction::Invalid
        }
    }
}

/// The canonical instruction word of an operation: the word with which an
/// assembler would write it down. The shifts ignore their second register
/// nibble and `Invalid` has no word of its own, so both get a zero there.
pub open spec fn encode(op: Instruction) -> (u8, u8) {
    match op {
        Instruction::Invalid => (0x00u8, 0x00u8),
        Instruction::Clear => (0x00u8, 0xE0u8),
        Instruction::Return => (0x00u8, 0xEEu8),
        Instruction::JumpTo(a) => address_word(0x1, a),
        Instruction::Call(a) => address_word(0x2, a),
        Instruction::SkipIfEqualByte { vx, byte } => byte_word(0x3, vx, byte),
        Instruction::SkipIfNotEqualByte { vx, byte } => byte_word(0x4, vx, byte),
        Instruction::SkipIfEqualReg { vx, vy } => register_word(0x5, vx, vy, 0x0),
        Instruction::LoadByte { vx, byte } => byte_word(0x6, vx, byte),
        Instruction::AddByte { vx, byte } => byte_word(0x7, vx, byte),
        Instruction::LoadReg { vx, vy } => register_word(0x8, vx, vy, 0x0),
        Instruction::Or { vx, vy } => register_word(0x8, vx, vy, 0x1),
        Instruction::And { vx, vy } => register_word(0x8, vx, vy, 0x2),
        Instruction::Xor { vx, vy } => register_word(0x8, vx, vy, 0x3),
        Instruction::AddReg { vx, vy } => register_word(0x8, vx, vy, 0x4),
        Instruction::Subtract { vx, vy } => register_word(0x8, vx, vy, 0x5),
        Instruction::ShiftRight { vx } => register_word(0x8, vx, 0, 0x6),
        Instruction::SubtractReverse { vx, vy } => register_word(0x8, vx, vy, 0x7),
        Instruction::ShiftLeft { vx } => register_word(0x8, vx, 0, 0xE),
        Instruction::SkipIfNotEqualReg { vx, vy } => register_word(0x9, vx, vy, 0x0),
        Instruction::LoadAddress(a) => address_word(0xA, a),
        Instruction::JumpOffset(a) => address_word(0xB, a),
        Instruction::Random { vx, byte } => byte_word(0xC, vx, byte),
        Instruction::Draw { vx, vy, nibble } => register_word(0xD, vx, vy, nibble as int),
        Instruction::SkipIfKeyPressed { vx } => byte_word(0xE, vx, 0x9E),
        Instruction::SkipIfNotKeyPressed { vx } => byte_word(0xE, vx, 0xA1),
        Instruction::LoadDelay { vx } => byte_word(0xF, vx, 0x07),
        Instruction::LoadKeyPressed { vx } => byte_word(0xF, vx, 0x0A),
        Instruction::SetDelay { vx } => byte_word(0xF, vx, 0x15),
        Instruction::SetSound { vx } => byte_word(0xF, vx, 0x18),
        Instruction::AddAddressOffset { vx } => byte_word(0xF, vx, 0x1E),
        Instruction::LoadSprite { vx } => byte_word(0xF, vx, 0x29),
        Instruction::SetBCD { vx } => byte_word(0xF, vx, 0x33),
        Instruction::LoadRegisters { vx } => byte_word(0xF, vx, 0x55),
        Instruction::ReadRegisters { vx } => byte_word(0xF, vx, 0x65),
    }
}

/// The word `f nnn`: a family nibble and a twelve-bit address.
pub open spec fn address_word(family: int, a: crate::instructions::Address) -> (u8, u8) {
    ((family * 16 + a.high) as u8, (a.middle * 16 + a.low) as u8)
}

/// The word `f x kk`: a family nibble, a register and a byte.
pub open spec fn byte_word(family: int, vx: usize, byte: u8) -> (u8, u8) {
    ((family * 16 + vx) as u8, byte)
}

/// The word `f x y n`: a family nibble, two registers and a last nibble.
pub open spec fn register_word(family: int, vx: usize, vy: usize, last: int) -> (u8, u8) {
    ((family * 16 + vx) as u8, (vy * 16 + last) as u8)
}

/// What one operation leaves behind: the next state, the keys that are
/// still pressed, and what the executor reports.
#[verifier::ext_equal]
pub struct Transition {
    pub state: MachineState,
    pub keys: Seq<u8>,
    pub result: Result<Option<(usize, usize, u8)>, Fault>,
}

/// A logical key identifier is one of the sixteen keys of the keypad.
pub open spec fn is_key(key: u8) -> bool {
    key < 16
}

/// `key` is a pressed key of the keypad and no pressed key of the keypad
/// has a lower identifier.
pub open spec fn is_lowest_key(keys: Seq<u8>, key: u8) -> bool {
    &&& is_key(key)
    &&& keys.contains(key)
    &&& forall|j: int| 0 <= j < keys.len() && is_key(#[trigger] keys[j]) ==> key <= keys[j]
}

/// The lowest pressed key of the keypad, if any is pressed.
pub open spec fn lowest_key(keys: Seq<u8>) -> Option<u8> {
    if exists|key: u8| is_lowest_key(keys, key) {
        Some(choose|key: u8| is_lowest_key(keys, key))
    } else {
        None
    }
}

/// The pressed keys once every press of `key` has been consumed.
pub open spec fn release(keys: Seq<u8>, key: u8) -> Seq<u8> {
    keys.filter(|pressed: u8| pressed != key)
}

/// The pixel that `bit` of a sprite leaves where `pixel` was: a set bit
/// flips the pixel, a clear bit leaves it. On one-bit values this is
/// exclusive or.
pub open spec fn toggle(pixel: u8, bit: u8) -> u8 {
    if bit == 1 {
        (1 - pixel) as u8
    } else {
        pixel
    }
}

/// The bit that the first `width` pixels of a sprite row `byte`, drawn
/// from column `x` on and wrapping round the right edge, put on `column`;
/// 0 where they do not reach.
pub open spec fn row_pixel(byte: u8, x: int, width: int, column: int) -> u8 {
    let offset = (column - x) % 64;
    if offset < width {
        bit_of(byte, offset)
    } else {
        0
    }
}

/// The bit that the sprite of `height` rows at the index register, drawn
/// with its top left corner on (`x`, `y`) and wrapping round the right and
/// the lower edge, puts on the pixel (`row`, `column`); 0 where it does not
/// reach.
pub open spec fn sprite_pixel(
    s: MachineState,
    x: int,
    y: int,
    height: int,
    row: int,
    column: int,
) -> u8 {
    let line = (row - y) % 32;
    if line < height {
        row_pixel(s.ram[s.index + line], x, 8, column)
    } else {
        0
    }
}

/// The frame buffer after the sprite has been drawn into it.
pub open spec fn drawn(s: MachineState, x: int, y: int, height: int) -> Seq<Seq<u8>> {
    Seq::new(
        32,
        |row: int|
            Seq::new(
                64,
                |column: int|
                    toggle(s.display[row][column], sprite_pixel(s, x, y, height, row, column)),
            ),
    )
}

/// Drawing the sprite clears a pixel that was set.
pub open spec fn collides(s: MachineState, x: int, y: int, height: int) -> bool {
    exists|row: int, column: int|
        0 <= row < 32 && 0 <= column < 64 && s.display[row][column] == 1
            && #[trigger] sprite_pixel(s, x, y, height, row, column) == 1
}

/// Drawing the sprite sets a pixel that was clear.
pub open spec fn lights(s: MachineState, x: int, y: int, height: int) -> bool {
    exists|row: int, column: int|
        0 <= row < 32 && 0 <= column < 64 && s.display[row][column] == 0
            && #[trigger] sprite_pixel(s, x, y, height, row, column) == 1
}

/// A frame buffer with every pixel clear.
pub open spec fn blank() -> Seq<Seq<u8>> {
    Seq::new(32, |row: int| Seq::new(64, |column: int| 0u8))
}

/// 1 for true and 0 for false, as the flag register holds it.
pub open spec fn flag(condition: bool) -> u8 {
    if condition {
        1
    } else {
        0
    }
}

/// The state with the program counter moved `by` bytes on.
pub open spec fn advance(s: MachineState, by: int) -> MachineState {
    MachineState { program_counter: s.program_counter + by, ..s }
}

/// The state after an operation that writes `value` to register `vx` and
/// goes on to the next instruction.
pub open spec fn assign(s: MachineState, vx: int, value: u8) -> MachineState {
    MachineState { registers: s.registers.update(vx, value), ..advance(s, 2) }
}

/// The state after an operation that writes `flag` to the flag register,
/// then `value` to register `vx`, and goes on to the next instruction.
/// Where `vx` is the flag register itself, `value` is what it holds.
pub open spec fn assign_with_flag(s: MachineState, vx: int, value: u8, flag: u8) -> MachineState {
    MachineState { registers: s.registers.update(0xF, flag).update(vx, value), ..advance(s, 2) }
}

/// The state after a conditional skip: four bytes on where the condition
/// holds, two where it does not.
pub open spec fn skip(s: MachineState, condition: bool) -> MachineState {
    advance(
        s,
        if condition {
            4
        } else {
            2
        },
    )
}

/// The operation worked and reports nothing to the host.
pub open spec fn proceed(state: MachineState, keys: Seq<u8>) -> Transition {
    Transition { state, keys, result: Ok(None) }
}

/// The operation is refused: the state and the keys stay as they were.
pub open spec fn refuse(s: MachineState, keys: Seq<u8>, fault: Fault) -> Transition {
    Transition { state: s, keys, result: Err(fault) }
}

/// The memory offset of the built-in glyph for the hexadecimal digit in
/// `value`: five bytes a glyph, from offset 0 on. A value that is no digit
/// gets the offset of the glyph for 0.
pub open spec fn glyph_offset(value: u8) -> int {
    if value < 16 {
        5 * value
    } else {
        0
    }
}

/// Memory after the registers 0 to `vx` have been stored from `index` on.
pub open spec fn stored(s: MachineState, vx: int) -> Seq<u8> {
    Seq::new(
        4096,
        |k: int|
            if s.index <= k <= s.index + vx {
                s.registers[k - s.index]
            } else {
                s.ram[k]
            },
    )
}

/// The registers after 0 to `vx` have been read from memory at `index` on.
pub open spec fn fetched(s: MachineState, vx: int) -> Seq<u8> {
    Seq::new(
        16,
        |k: int|
            if k <= vx {
                s.ram[s.index + k]
            } else {
                s.registers[k]
            },
    )
}

/// What `op` does to the state `s` while `keys` are pressed; `random` is
/// the byte that the random operation draws.
///
/// An operation is refused, with the state and the keys unchanged, where
/// the program counter does not name two bytes inside memory, where it is
/// no operation, where a call finds the stack full or a return finds it
/// empty, and where it would read or write outside memory or move the index
/// register beyond the last byte of memory.
pub open spec fn apply(s: MachineState, op: Instruction, keys: Seq<u8>, random: u8) -> Transition {
    if !s.can_fetch() {
        refuse(s, keys, Fault::AddressOutOfRange)
    } else {
        match op {
            Instruction::Invalid => refuse(s, keys, Fault::DecodeInvalid),
            Instruction::Clear => proceed(MachineState { display: blank(), ..advance(s, 2) }, keys),
            Instruction::Return => if s.stack.len() == 0 {
                refuse(s, keys, Fault::StackUnderflow)
            } else {
                proceed(
                    MachineState {
                        program_counter: s.stack.last() as int,
                        stack: s.stack.drop_last(),
                        ..s
                    },
                    keys,
                )
            },
            Instruction::JumpTo(addr) => proceed(
                MachineState { program_counter: addr.value(), ..s },
                keys,
            ),
            Instruction::Call(addr) => if s.stack.len() >= 16 {
                refuse(s, keys, Fault::StackOverflow)
            } else {
                proceed(
                    MachineState {
                        program_counter: addr.value(),
                        stack: s.stack.push((s.program_counter + 2) as u16),
                        ..s
                    },
                    keys,
                )
            },
            Instruction::SkipIfEqualByte { vx, byte } => proceed(
                skip(s, s.registers[vx as int] == byte),
                keys,
            ),
            Instruction::SkipIfNotEqualByte { vx, byte } => proceed(
                skip(s, s.registers[vx as int] != byte),
                keys,
            ),
            Instruction::SkipIfEqualReg { vx, vy } => proceed(
                skip(s, s.registers[vx as int] == s.registers[vy as int]),
                keys,
            ),
            Instruction::SkipIfNotEqualReg { vx, vy } => proceed(
                skip(s, s.registers[vx as int] != s.registers[vy as int]),
                keys,
            ),
            Instruction::LoadByte { vx, byte } => proceed(assign(s, vx as int, byte), keys),
            Instruction::LoadReg { vx, vy } => proceed(
                assign(s, vx as int, s.registers[vy as int]),
                keys,
            ),
            Instruction::Or { vx, vy } => proceed(
                assign(s, vx as int, s.registers[vx as int] | s.registers[vy as int]),
                keys,
            ),
            Instruction::And { vx, vy } => proceed(
                assign(s, vx as int, s.registers[vx as int] & s.registers[vy as int]),
                keys,
            ),
            Instruction::Xor { vx, vy } => proceed(
                assign(s, vx as int, s.registers[vx as int] ^ s.registers[vy as int]),
                keys,
            ),
            Instruction::AddByte { vx, byte } => {
                let sum = s.registers[vx as int] + byte;
                proceed(assign_with_flag(s, vx as int, (sum % 256) as u8, flag(sum > 255)), keys)
            },
            Instruction::AddReg { vx, vy } => {
                let sum = s.registers[vx as int] + s.registers[vy as int];
                proceed(assign_with_flag(s, vx as int, (sum % 256) as u8, flag(sum > 255)), keys)
            },
            Instruction::Subtract { vx, vy } => {
                let minuend = s.registers[vx as int];
                let subtrahend = s.registers[vy as int];
                proceed(
                    assign_with_flag(
                        s,
                        vx as int,
                        ((minuend - subtrahend) % 256) as u8,
                        flag(minuend >= subtrahend),
                    ),
                    keys,
                )
            },
            Instruction::SubtractReverse { vx, vy } => {
                let minuend = s.registers[vy as int];
                let subtrahend = s.registers[vx as int];
                proceed(
                    assign_with_flag(
                        s,
                        vx as int,
                        ((minuend - subtrahend) % 256) as u8,
                        flag(minuend >= subtrahend),
                    ),
                    keys,
                )
            },
            Instruction::ShiftRight { vx } => {
                let value = s.registers[vx as int];
                proceed(assign_with_flag(s, vx as int, value / 2, value % 2), keys)
            },
            Instruction::ShiftLeft { vx } => {
                let value = s.registers[vx as int];
                proceed(
                    assign_with_flag(s, vx as int, ((value * 2) % 256) as u8, value / 128),
                    keys,
                )
            },
            Instruction::LoadAddress(addr) => proceed(
                MachineState { index: addr.value(), ..advance(s, 2) },
                keys,
            ),
            Instruction::JumpOffset(addr) => proceed(
                MachineState { program_counter: addr.value() + s.registers[0], ..s },
                keys,
            ),
            Instruction::Random { vx, byte } => proceed(assign(s, vx as int, random & byte), keys),
            Instruction::Draw { vx, vy, nibble } => {
                let x = s.registers[vx as int];
                let y = s.registers[vy as int];
                if s.index + nibble > 4096 {
                    refuse(s, keys, Fault::AddressOutOfRange)
                } else {
                    Transition {
                        state: MachineState {
                            display: drawn(s, x as int, y as int, nibble as int),
                            registers: s.registers.update(
                                0xF,
                                flag(collides(s, x as int, y as int, nibble as int)),
                            ),
                            ..advance(s, 2)
                        },
                        keys,
                        result: Ok(Some((x as usize, y as usize, nibble))),
                    }
                }
            },
            Instruction::SkipIfKeyPressed { vx } => {
                let key = s.registers[vx as int];
                if keys.contains(key) {
                    proceed(advance(s, 4), release(keys, key))
                } else {
                    proceed(advance(s, 2), keys)
                }
            },
            Instruction::SkipIfNotKeyPressed { vx } => {
                let key = s.registers[vx as int];
                if keys.contains(key) {
                    proceed(advance(s, 2), release(keys, key))
                } else {
                    proceed(advance(s, 4), keys)
                }
            },
            Instruction::LoadDelay { vx } => proceed(assign(s, vx as int, s.delay), keys),
            Instruction::LoadKeyPressed { vx } => match lowest_key(keys) {
                Some(key) => proceed(assign(s, vx as int, key), Seq::empty()),
                None => proceed(s, Seq::empty()),
            },
            Instruction::SetDelay { vx } => proceed(
                MachineState { delay: s.registers[vx as int], ..advance(s, 2) },
                keys,
            ),
            Instruction::SetSound { vx } => proceed(
                MachineState { sound: s.registers[vx as int], ..advance(s, 2) },
                keys,
            ),
            Instruction::AddAddressOffset { vx } => if s.index + s.registers[vx as int] > 4095 {
                refuse(s, keys, Fault::AddressOutOfRange)
            } else {
                proceed(
                    MachineState {
                        index: s.index + s.registers[vx as int],
                        ..advance(s, 2)
                    },
                    keys,
                )
            },
            Instruction::LoadSprite { vx } => proceed(
                MachineState { index: glyph_offset(s.registers[vx as int]), ..advance(s, 2) },
                keys,
            ),
            Instruction::SetBCD { vx } => {
                let value = s.registers[vx as int];
                if s.index + 2 > 4095 {
                    refuse(s, keys, Fault::AddressOutOfRange)
                } else {
                    proceed(
                        MachineState {
                            ram: s.ram.update(s.index, value / 100).update(
                                s.index + 1,
                                value / 10 % 10,
                            ).update(s.index + 2, value % 10),
                            ..advance(s, 2)
                        },
                        keys,
                    )
                }
            },
            Instruction::LoadRegisters { vx } => if s.index + vx > 4095 {
                refuse(s, keys, Fault::AddressOutOfRange)
            } else {
                proceed(MachineState { ram: stored(s, vx as int), ..advance(s, 2) }, keys)
            },
            Instruction::ReadRegisters { vx } => if s.index + vx > 4095 {
                refuse(s, keys, Fault::AddressOutOfRange)
            } else {
                proceed(MachineState { registers: fetched(s, vx as int), ..advance(s, 2) }, keys)
            },
        }
    }
}

/// What one fetch-decode-execute cycle leaves behind: the next state, the
/// keys that are still pressed, and the status that the cycle reports.
#[verifier::ext_equal]
pub struct Cycle {
    pub state: MachineState,
    pub keys: Seq<u8>,
    pub status: Status,
}

/// One fetch-decode-execute cycle: the two bytes at the program counter
/// are decoded and the operation is applied. The machine halts, its state
/// and the keys unchanged, where the program counter does not name two
/// bytes inside memory and where the operation is refused.
pub open spec fn cycle(s: MachineState, keys: Seq<u8>, random: u8) -> Cycle {
    if !s.can_fetch() {
        Cycle { state: s, keys, status: Status::Halt(Fault::AddressOutOfRange) }
    } else {
        let next = apply(s, fetch(s), keys, random);
        match next.result {
            Ok(_) => Cycle { state: next.state, keys: next.keys, status: Status::Continue },
            Err(fault) => Cycle { state: next.state, keys: next.keys, status: Status::Halt(fault) },
        }
    }
}

/// The operation at the program counter.
pub open spec fn fetch(s: MachineState) -> Instruction {
    decode(s.ram[s.program_counter], s.ram[s.program_counter + 1])
}

/// The machine is waiting for a key: the operation at the program counter
/// is the key wait and no key of the keypad is pressed.
pub open spec fn awaits_key(s: MachineState, keys: Seq<u8>) -> bool {
    &&& s.can_fetch()
    &&& fetch(s) is LoadKeyPressed
    &&& lowest_key(keys) is None
}

/// A timer one tick later: one less, and 0 stays 0.
pub open spec fn ticked(timer: u8) -> u8 {
    if timer > 0 {
        (timer - 1) as u8
    } else {
        0
    }
}

} // verus!
