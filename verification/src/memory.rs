//! The machine state and its mathematical model.

use crate::display_constants::{
    glyph_byte, A, B, C, D, E, EIGHT, F, FIVE, FOUR, GLYPH_TABLE_SIZE, NINE, ONE, SEVEN, SIX,
    THREE, TWO, ZERO,
};
use crate::interpreter::Fault;
use crate::semantics::blank;
use vstd::prelude::*;

verus! {

/// Where a program image starts in memory.
pub const INTERPRETER_SIZE: usize = 0x200;

/// The number of bytes of memory.
pub const RAM_SIZE: usize = 4096;

/// The number of return addresses that the call stack can hold.
pub const STACK_SIZE: usize = 16;

/// The state of the machine. `stack_pointer` is the depth of the call
/// stack: the return addresses are `stack[0..stack_pointer]`, the last
/// pushed being the last of them. `display[row][column]` is 1 where the
/// pixel is set and 0 where it is clear.
#[derive(Debug, PartialEq, Eq)]
pub struct Memory {
    pub delay: u8,
    pub sound: u8,
    pub i: u16,
    pub program_counter: u16,
    pub stack_pointer: usize,
    pub registers: [u8; 16],
    pub stack: [u16; 16],
    pub display: [[u8; 64]; 32],
    pub ram: [u8; 4096],
}

/// The machine as a mathematical value. The call stack is the sequence of
/// the return addresses that are on it, and nothing of the slots above
/// them.
#[verifier::ext_equal]
pub struct MachineState {
    pub program_counter: int,
    pub index: int,
    pub registers: Seq<u8>,
    pub stack: Seq<u16>,
    pub delay: u8,
    pub sound: u8,
    pub ram: Seq<u8>,
    pub display: Seq<Seq<u8>>,
}

impl MachineState {
    /// Addresses that are not negative, sixteen registers, at most sixteen
    /// return addresses, 4096 bytes of memory and a frame buffer of 32 rows
    /// by 64 columns of one-bit pixels.
    pub open spec fn wf(self) -> bool {
        &&& 0 <= self.program_counter
        &&& 0 <= self.index
        &&& self.registers.len() == 16
        &&& self.stack.len() <= 16
        &&& self.ram.len() == 4096
        &&& self.display.len() == 32
        &&& forall|row: int| 0 <= row < 32 ==> (#[trigger] self.display[row]).len() == 64
        &&& forall|row: int, column: int|
            0 <= row < 32 && 0 <= column < 64 ==> #[trigger] self.display[row][column] <= 1
    }

    /// Whether the program counter names two bytes that both lie in memory.
    pub open spec fn can_fetch(self) -> bool {
        0 <= self.program_counter && self.program_counter + 1 < 4096
    }
}

/// The frame buffer as a sequence of rows, each a sequence of pixels.
pub open spec fn pixels(display: [[u8; 64]; 32]) -> Seq<Seq<u8>> {
    Seq::new(32, |row: int| display[row]@)
}

impl Clone for Memory {
    fn clone(&self) -> (copy: Self)
        ensures
            copy == *self,
    {
        Memory {
            delay: self.delay,
            sound: self.sound,
            i: self.i,
            program_counter: self.program_counter,
            stack_pointer: self.stack_pointer,
            registers: self.registers,
            stack: self.stack,
            display: self.display,
            ram: self.ram,
        }
    }
}

impl View for Memory {
    type V = MachineState;

    open spec fn view(&self) -> MachineState {
        MachineState {
            program_counter: self.program_counter as int,
            index: self.i as int,
            registers: self.registers@,
            stack: self.stack@.take(self.stack_pointer as int),
            delay: self.delay,
            sound: self.sound,
            ram: self.ram@,
            display: pixels(self.display),
        }
    }
}

/// Copies the five rows of a glyph to their place in the table of glyphs.
fn install_glyph(ram: &mut [u8; 4096], digit: usize, rows: &[u8; 5])
    requires
        digit < 16,
    ensures
        forall|k: int|
            0 <= k < 4096 ==> #[trigger] final(ram)[k] == (if 5 * digit <= k < 5 * digit + 5 {
                rows[k - 5 * digit]
            } else {
                old(ram)[k]
            }),
{
    let mut row: usize = 0;
    while row < 5
        invariant
            row <= 5,
            digit < 16,
            forall|k: int|
                0 <= k < 4096 ==> #[trigger] ram[k] == (if 5 * digit <= k < 5 * digit + row {
                    rows[k - 5 * digit]
                } else {
                    old(ram)[k]
                }),
        decreases 5 - row,
    {
        ram[5 * digit + row] = rows[row];
        row += 1;
    }
}

impl Memory {
    /// The call stack is no deeper than it can be and every pixel is one
    /// bit.
    pub open spec fn wf(&self) -> bool {
        &&& self.stack_pointer <= 16
        &&& forall|row: int, column: int|
            0 <= row < 32 && 0 <= column < 64 ==> #[trigger] self.display[row][column] <= 1
    }

    /// A machine at rest: the glyphs for the sixteen hexadecimal digits at
    /// the bottom of memory and nothing above them, every register and
    /// timer 0, the stack empty, the frame buffer blank, and the program
    /// counter where a program image starts.
    pub fn new() -> (memory: Memory)
        ensures
            memory.wf(),
            memory@ == (MachineState {
                program_counter: INTERPRETER_SIZE as int,
                index: 0,
                registers: Seq::new(16, |k: int| 0u8),
                stack: Seq::empty(),
                delay: 0,
                sound: 0,
                ram: Seq::new(
                    4096,
                    |k: int|
                        if k < GLYPH_TABLE_SIZE {
                            glyph_byte(k)
                        } else {
                            0u8
                        },
                ),
                display: blank(),
            }),
    {
        let mut memory = Memory {
            delay: 0,
            sound: 0,
            stack_pointer: 0,
            program_counter: INTERPRETER_SIZE as u16,
            i: 0,
            registers: [0; 16],
            stack: [0; 16],
            display: [[0; 64]; 32],
            ram: [0; 4096],
        };
        install_glyph(&mut memory.ram, 0x0, &ZERO);
        install_glyph(&mut memory.ram, 0x1, &ONE);
        install_glyph(&mut memory.ram, 0x2, &TWO);
        install_glyph(&mut memory.ram, 0x3, &THREE);
        install_glyph(&mut memory.ram, 0x4, &FOUR);
        install_glyph(&mut memory.ram, 0x5, &FIVE);
        install_glyph(&mut memory.ram, 0x6, &SIX);
        install_glyph(&mut memory.ram, 0x7, &SEVEN);
        install_glyph(&mut memory.ram, 0x8, &EIGHT);
        install_glyph(&mut memory.ram, 0x9, &NINE);
        install_glyph(&mut memory.ram, 0xA, &A);
        install_glyph(&mut memory.ram, 0xB, &B);
        install_glyph(&mut memory.ram, 0xC, &C);
        install_glyph(&mut memory.ram, 0xD, &D);
        install_glyph(&mut memory.ram, 0xE, &E);
        install_glyph(&mut memory.ram, 0xF, &F);
        proof {
            assert(memory@.registers =~= Seq::new(16, |k: int| 0u8));
            assert(memory@.stack =~= Seq::empty());
            assert(memory@.display =~~= blank());
            assert(memory@.ram =~= Seq::new(
                4096,
                |k: int|
                    if k < GLYPH_TABLE_SIZE {
                        glyph_byte(k)
                    } else {
                        0u8
                    },
            ));
        }
        memory
    }

    /// Whether the machine is well formed.
    pub fn is_wf(&self) -> (valid: bool)
        ensures
            valid == self.wf(),
    {
        if self.stack_pointer > 16 {
            return false;
        }
        let mut row: usize = 0;
        while row < 32
            invariant
                row <= 32,
                forall|r: int, c: int|
                    0 <= r < row && 0 <= c < 64 ==> #[trigger] self.display[r][c] <= 1,
            decreases 32 - row,
        {
            let mut column: usize = 0;
            while column < 64
                invariant
                    row < 32,
                    column <= 64,
                    forall|r: int, c: int|
                        0 <= r < row && 0 <= c < 64 ==> #[trigger] self.display[r][c] <= 1,
                    forall|c: int| 0 <= c < column ==> #[trigger] self.display[row as int][c] <= 1,
                decreases 64 - column,
            {
                if self.display[row][column] > 1 {
                    return false;
                }
                column += 1;
            }
            row += 1;
        }
        true
    }

    /// Puts a program image into memory, from the address where programs
    /// start on. An image that does not fit between there and the end of
    /// memory is refused, and nothing changes.
    pub fn load_program(&mut self, image: &[u8]) -> (loaded: Result<(), Fault>)
        ensures
            loaded is Ok <==> image@.len() <= RAM_SIZE - INTERPRETER_SIZE,
            loaded is Err ==> loaded == Err::<(), Fault>(Fault::AddressOutOfRange) && *final(self)
                == *old(self),
            loaded is Ok ==> *final(self) == (Memory { ram: final(self).ram, ..*old(self) })
                && final(self).ram@ == Seq::new(
                4096,
                |k: int|
                    if INTERPRETER_SIZE <= k < INTERPRETER_SIZE + image@.len() {
                        image@[k - INTERPRETER_SIZE]
                    } else {
                        old(self).ram[k]
                    },
            ),
    {
        if image.len() > RAM_SIZE - INTERPRETER_SIZE {
            return Err(Fault::AddressOutOfRange);
        }
        let mut offset: usize = 0;
        while offset < image.len()
            invariant
                offset <= image@.len() <= RAM_SIZE - INTERPRETER_SIZE,
                *self == (Memory { ram: self.ram, ..*old(self) }),
                self.ram@ =~= Seq::new(
                    4096,
                    |k: int|
                        if INTERPRETER_SIZE <= k < INTERPRETER_SIZE + offset {
                            image@[k - INTERPRETER_SIZE]
                        } else {
                            old(self).ram[k]
                        },
                ),
            decreases image.len() - offset,
        {
            self.ram[INTERPRETER_SIZE + offset] = image[offset];
            offset += 1;
        }
        Ok(())
    }

    /// A well-formed machine is a well-formed mathematical state.
    pub proof fn lemma_view_wf(&self)
        requires
            self.wf(),
        ensures
            self@.wf(),
    {
    }
}

} // verus!
