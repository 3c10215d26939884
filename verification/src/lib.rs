//! An interpreter for the CHIP-8 virtual machine.
//!
//! The crate holds the machine's logic and nothing else: decoding a
//! two-byte instruction word, applying one operation to the machine state,
//! the fetch-decode-execute cycle and the timers. Rendering, keyboard
//! polling and program loading belong to the host.
//!
//! Every executable function carries a contract over a mathematical model
//! of the machine ([`memory::MachineState`]), and the transition function
//! itself is the spec function [`semantics::apply`].

pub mod display_constants;
pub mod instructions;
pub mod interpreter;
pub mod laws;
pub mod memory;
pub mod semantics;
