//! The size of the frame buffer and the built-in glyphs for the sixteen
//! hexadecimal digits, five rows of eight pixels each.

use vstd::prelude::*;

verus! {

pub const HEIGHT: u32 = 32;

pub const WIDTH: u32 = 64;

pub const SCALE: u32 = 10;

// ****
// *  *
// *  *
// *  *
// ****
/// Sprite data for 0
pub const ZERO: [u8; 5] = [0xF0, 0x90, 0x90, 0x90, 0xF0];

//  * 
// ** 
//  * 
//  * 
// ***
/// Sprite data for 1
pub const ONE: [u8; 5] = [0x20, 0x60, 0x20, 0x20, 0x70];

// ****
//    *
// ****
// *   
// ****
/// Sprite data for 2
pub const TWO: [u8; 5] = [0xF0, 0x10, 0xF0, 0x80, 0xF0];

// ****
//    *
// ****
//    *
// ****
/// Sprite data for 3
pub const THREE: [u8; 5] = [0xF0, 0x10, 0xF0, 0x10, 0xF0];

// *  *
// *  *
// ****
//    *
//    *
/// Sprite data for 4
pub const FOUR: [u8; 5] = [0x90, 0x90, 0xF0, 0x10, 0x10];

// ****
// *   
// ****
//    *
// ****
/// Sprite data for 5
pub const FIVE: [u8; 5] = [0xF0, 0x80, 0xF0, 0x10, 0xF0];

// ****
// *   
// ****
// *  *
// ****
/// Sprite data for 6
pub const SIX: [u8; 5] = [0xF0, 0x80, 0xF0, 0x90, 0xF0];

// ****
//    *
//   * 
//  *  
//  *  
/// Sprite data for 7
pub const SEVEN: [u8; 5] = [0xF0, 0x10, 0x20, 0x40, 0x40];

// ****
// *  *
// ****
// *  *
// ****
/// Sprite data for 8
pub const EIGHT: [u8; 5] = [0xF0, 0x90, 0xF0, 0x90, 0xF0];

// ****
// *  *
// ****
//    *
// ****
/// Sprite data for 9
pub const NINE: [u8; 5] = [0xF0, 0x90, 0xF0, 0x10, 0xF0];

// ****
// *  *
// ****
// *  *
// *  *
/// Sprite data for A
pub const A: [u8; 5] = [0xF0, 0x90, 0xF0, 0x90, 0x90];

// *** 
// *  *
// *** 
// *  *
// *** 
/// Sprite data for B
pub const B: [u8; 5] = [0xE0, 0x90, 0xE0, 0x90, 0xE0];

// ****
// *   
// *   
// *   
// ****
/// Sprite data for C
pub const C: [u8; 5] = [0xF0, 0x80, 0x80, 0x80, 0xF0];

// *** 
// *  *
// *  *
// *  *
// *** 
/// Sprite data for D
pub const D: [u8; 5] = [0xE0, 0x90, 0x90, 0x90, 0xE0];

// ****
// *   
// ****
// *   
// ****
/// Sprite data for E
pub const E: [u8; 5] = [0xF0, 0x80, 0xF0, 0x80, 0xF0];

// ****
// *   
// ****
// *   
// *   
/// Sprite data for F
pub const F: [u8; 5] = [0xF0, 0x80, 0xF0, 0x80, 0x80];

/// The glyph for a hexadecimal digit.
pub open spec fn glyph(digit: int) -> [u8; 5] {
    if digit == 0x0 {
        ZERO
    } else if digit == 0x1 {
        ONE
    } else if digit == 0x2 {
        TWO
    } else if digit == 0x3 {
        THREE
    } else if digit == 0x4 {
        FOUR
    } else if digit == 0x5 {
        FIVE
    } else if digit == 0x6 {
        SIX
    } else if digit == 0x7 {
        SEVEN
    } else if digit == 0x8 {
        EIGHT
    } else if digit == 0x9 {
        NINE
    } else if digit == 0xA {
        A
    } else if digit == 0xB {
        B
    } else if digit == 0xC {
        C
    } else if digit == 0xD {
        D
    } else if digit == 0xE {
        E
    } else {
        F
    }
}

/// The byte at `offset` in the table of glyphs that a new machine holds at
/// the bottom of its memory: the glyphs for 0 to F one after the other.
pub open spec fn glyph_byte(offset: int) -> u8 {
    glyph(offset / 5)[offset % 5]
}

/// The number of bytes that the table of glyphs takes.
pub const GLYPH_TABLE_SIZE: usize = 80;

} // verus!
