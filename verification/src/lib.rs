//! A CHIP-8 virtual machine core: the complete machine state (memory,
//! registers, call stack, timers) together with a verified fetch-decode-execute
//! cycle. Every opcode is classified into a typed operation and applied as a
//! deterministic state transition whose effect is pinned down by a
//! mathematical model of the machine.

use vstd::prelude::*;

pub mod decode;
pub mod engine;
pub mod io;
pub mod laws;
pub mod machine;

verus! {

/// `n` reduced into the 16-bit address space: arithmetic on the program
/// counter and the index register wraps modulo `0x10000`.
pub open spec fn wrap16(n: int) -> u16 {
    (n % 0x10000) as u16
}

/// Number of addressable bytes of machine memory.
pub const MEM_SIZE: usize = 4096;

/// Number of general-purpose registers `V0..VF`.
pub const NUM_REGS: usize = 16;

/// Number of return addresses the call stack can hold.
pub const STACK_SIZE: usize = 16;

/// Byte offset at which a program image is loaded, and where `pc` starts.
pub const LOAD_OFFSET: u16 = 0x200;

/// Base address of the font table: sprites for the hexadecimal digits,
/// five bytes each, laid out consecutively in low memory.
pub const FONT_BASE: u16 = 0x50;

/// A fatal condition raised by the execution engine or the step loop.
/// Faults abort the current run; there is no opcode-level recovery.
#[derive(Clone, Copy, Debug, PartialEq, Eq, Structural)]
pub enum Fault {
    /// The fetched 16-bit value matches no recognized instruction shape.
    InvalidOpcode,
    /// A call was attempted with all stack slots already in use.
    StackOverflow,
    /// A return was attempted with an empty stack.
    StackUnderflow,
    /// A computed address (`pc` or an `I`-relative access) falls outside memory.
    MemoryOutOfBounds,
}

} // verus!
