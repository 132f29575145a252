//! The machine state of the virtual machine: memory, general-purpose
//! registers, index register, program counter, call stack and timers.
//!
//! The state is a single mutable aggregate with no behavior of its own beyond
//! a handful of small helpers (stack push/pop, jumps, the flag register).
//! The execution engine in [`crate::engine`] applies opcode transitions to it.

use vstd::prelude::*;
use crate::{LOAD_OFFSET, MEM_SIZE, NUM_REGS, STACK_SIZE};

verus! {

/// The complete register/memory/stack/timer state of one CHIP-8 machine.
///
/// `memory` always holds [`MEM_SIZE`] bytes, `reg` the sixteen registers
/// `V0..VF`, and `stack` sixteen return-address slots of which the first
/// `sp` are in use ([`Emulator::wf`]).
pub struct Emulator {
    /// Byte-addressed machine memory.
    pub memory: Vec<u8>,
    /// General-purpose registers `V0..VF`; `reg[15]` is the flag register.
    pub reg: Vec<u8>,
    /// Return addresses of pending calls; `stack[sp - 1]` is the newest.
    pub stack: Vec<u16>,
    /// Program counter, byte-addressed.
    pub pc: u16,
    /// Number of stack slots in use; `0` means the stack is empty.
    pub sp: u8,
    /// Index register, used for memory addressing.
    pub i: u16,
    /// Delay timer, counted down by the host at its own cadence.
    pub delay_t: u8,
    /// Sound timer, counted down by the host at its own cadence.
    pub sound_t: u8,
}

impl Emulator {
    /// Structural well-formedness: the fixed sizes of memory, register bank
    /// and stack, and a stack pointer within capacity.
    pub open spec fn wf(self) -> bool {
        &&& self.memory@.len() == MEM_SIZE
        &&& self.reg@.len() == NUM_REGS
        &&& self.stack@.len() == STACK_SIZE
        &&& self.sp <= STACK_SIZE
    }

    /// Pushes a return address onto the call stack.
    pub fn push(&mut self, n: u16)
        requires
            old(self).wf(),
            old(self).sp < STACK_SIZE,
        ensures
            final(self).wf(),
            final(self).stack@ == old(self).stack@.update(old(self).sp as int, n),
            final(self).sp == old(self).sp + 1,
            final(self).memory@ == old(self).memory@,
            final(self).reg@ == old(self).reg@,
            final(self).pc == old(self).pc,
            final(self).i == old(self).i,
            final(self).delay_t == old(self).delay_t,
            final(self).sound_t == old(self).sound_t,
    {
        let slot: usize = self.sp as usize;
        self.stack[slot] = n;
        self.sp = self.sp + 1;
    }

    /// Pops the newest return address off the call stack.
    pub fn pop(&mut self) -> (n: u16)
        requires
            old(self).wf(),
            old(self).sp > 0,
        ensures
            final(self).wf(),
            n == old(self).stack@[old(self).sp - 1],
            final(self).sp == old(self).sp - 1,
            final(self).stack@ == old(self).stack@,
            final(self).memory@ == old(self).memory@,
            final(self).reg@ == old(self).reg@,
            final(self).pc == old(self).pc,
            final(self).i == old(self).i,
            final(self).delay_t == old(self).delay_t,
            final(self).sound_t == old(self).sound_t,
    {
        let slot: usize = (self.sp - 1) as usize;
        let n = self.stack[slot];
        self.sp = self.sp - 1;
        n
    }

    /// Redirects control: sets the program counter to `location`.
    pub fn jmp(&mut self, location: u16)
        ensures
            final(self).pc == location,
            final(self).memory@ == old(self).memory@,
            final(self).reg@ == old(self).reg@,
            final(self).stack@ == old(self).stack@,
            final(self).sp == old(self).sp,
            final(self).i == old(self).i,
            final(self).delay_t == old(self).delay_t,
            final(self).sound_t == old(self).sound_t,
    {
        self.pc = location;
    }

    /// Advances the program counter by one instruction width (two bytes),
    /// wrapping modulo the 16-bit address space.
    pub fn next(&mut self)
        ensures
            final(self).pc == crate::wrap16(old(self).pc + 2),
            final(self).memory@ == old(self).memory@,
            final(self).reg@ == old(self).reg@,
            final(self).stack@ == old(self).stack@,
            final(self).sp == old(self).sp,
            final(self).i == old(self).i,
            final(self).delay_t == old(self).delay_t,
            final(self).sound_t == old(self).sound_t,
    {
        self.pc = self.pc.wrapping_add(2);
    }

    /// Sets the flag register `VF` to `1` if `cond` holds, else to `0`.
    pub fn set_flag(&mut self, cond: bool)
        requires
            old(self).wf(),
        ensures
            final(self).wf(),
            final(self).reg@ == old(self).reg@.update(15, if cond { 1u8 } else { 0u8 }),
            final(self).memory@ == old(self).memory@,
            final(self).stack@ == old(self).stack@,
            final(self).pc == old(self).pc,
            final(self).sp == old(self).sp,
            final(self).i == old(self).i,
            final(self).delay_t == old(self).delay_t,
            final(self).sound_t == old(self).sound_t,
    {
        self.reg[15] = if cond { 1 } else { 0 };
    }
}

/// A vector of `n` zero bytes.
fn zero_bytes(n: usize) -> (v: Vec<u8>)
    ensures
        v@.len() == n,
        forall|k: int| 0 <= k < n ==> v@[k] == 0u8,
{
    let mut v: Vec<u8> = Vec::new();
    for j in 0..n
        invariant
            v@.len() == j,
            forall|k: int| 0 <= k < j ==> v@[k] == 0u8,
    {
        v.push(0);
    }
    v
}

/// A vector of `n` zero words.
fn zero_words(n: usize) -> (v: Vec<u16>)
    ensures
        v@.len() == n,
        forall|k: int| 0 <= k < n ==> v@[k] == 0u16,
{
    let mut v: Vec<u16> = Vec::new();
    for j in 0..n
        invariant
            v@.len() == j,
            forall|k: int| 0 <= k < j ==> v@[k] == 0u16,
    {
        v.push(0);
    }
    v
}

impl Default for Emulator {
    /// A machine at rest: memory zero-filled, registers, timers, stack and
    /// stack pointer zeroed, program counter at address `0`.
    fn default() -> (r: Self)
        ensures
            r.wf(),
            forall|k: int| 0 <= k < MEM_SIZE ==> r.memory@[k] == 0u8,
            forall|k: int| 0 <= k < NUM_REGS ==> r.reg@[k] == 0u8,
            forall|k: int| 0 <= k < STACK_SIZE ==> r.stack@[k] == 0u16,
            r.pc == 0,
            r.sp == 0,
            r.i == 0,
            r.delay_t == 0,
            r.sound_t == 0,
    {
        Emulator {
            memory: zero_bytes(MEM_SIZE),
            reg: zero_bytes(NUM_REGS),
            stack: zero_words(STACK_SIZE),
            pc: 0,
            sp: 0,
            i: 0,
            delay_t: 0,
            sound_t: 0,
        }
    }
}

impl Emulator {
    /// A machine ready to run `program`: the image is copied into memory at
    /// [`LOAD_OFFSET`] and the program counter starts there.
    pub fn load(program: &[u8]) -> (r: Self)
        requires
            program@.len() <= MEM_SIZE - LOAD_OFFSET,
        ensures
            r.wf(),
            r.memory@.len() == MEM_SIZE,
            forall|k: int|
                LOAD_OFFSET <= k < LOAD_OFFSET + program@.len()
                    ==> r.memory@[k] == program@[k - LOAD_OFFSET],
            forall|k: int|
                0 <= k < MEM_SIZE && !(LOAD_OFFSET <= k < LOAD_OFFSET + program@.len())
                    ==> r.memory@[k] == 0u8,
            forall|k: int| 0 <= k < NUM_REGS ==> r.reg@[k] == 0u8,
            forall|k: int| 0 <= k < STACK_SIZE ==> r.stack@[k] == 0u16,
            r.pc == LOAD_OFFSET,
            r.sp == 0,
            r.i == 0,
            r.delay_t == 0,
            r.sound_t == 0,
    {
        let mut em = Emulator::default();
        let base: usize = LOAD_OFFSET as usize;
        for j in 0..program.len()
            invariant
                em.wf(),
                program@.len() <= MEM_SIZE - LOAD_OFFSET,
                base == LOAD_OFFSET,
                forall|k: int| base <= k < base + j ==> em.memory@[k] == program@[k - base],
                forall|k: int|
                    0 <= k < MEM_SIZE && !(base <= k < base + j) ==> em.memory@[k] == 0u8,
                forall|k: int| 0 <= k < NUM_REGS ==> em.reg@[k] == 0u8,
                forall|k: int| 0 <= k < STACK_SIZE ==> em.stack@[k] == 0u16,
                em.pc == 0,
                em.sp == 0,
                em.i == 0,
                em.delay_t == 0,
                em.sound_t == 0,
        {
            em.memory[base + j] = program[j];
        }
        em.pc = LOAD_OFFSET;
        em
    }
}

} // verus!
