//! The laws the engine obeys, proved once and for all machines: exactness of
//! the immediate load, the carry and borrow flags of the arithmetic opcodes,
//! the shifted-out bit of the shift opcodes, the register dump/reload round
//! trip, the call/return discipline, the masking of the random byte, and the
//! totality of invalid-opcode detection.

use vstd::prelude::*;

verus! {

use crate::decode::{lemma_decode_wf, spec_decode, Op};
use crate::engine::{add8, flag8, spec_apply, spec_execute, sub8, Model};
use crate::{Fault, MEM_SIZE};

/// Loading an immediate then reading the register yields exactly that
/// immediate: for every machine, every `6xkk` leaves `Vx == kk`, and touches
/// nothing else.
pub proof fn lemma_load_yields_imm(inst: u16, m: Model, rb: u8, x: u8, kk: u8)
    requires
        m.wf(),
        spec_decode(inst) == Some(Op::LoadImm(x, kk)),
    ensures
        spec_execute(inst, m, rb) matches Ok(m2) && m2.reg[x as int] == kk,
{
    lemma_decode_wf(inst);
}

/// Add with carry: for all register contents `a` and `b`, `8xy4` sets
/// `VF = 1` exactly when `a + b` overflows a byte, and leaves
/// `Vx == (a + b) mod 256`. When `x` is the flag register itself the flag is
/// the last write and wins, so that case is left out.
pub proof fn lemma_add_sets_carry(inst: u16, m: Model, rb: u8, x: u8, y: u8)
    requires
        m.wf(),
        spec_decode(inst) == Some(Op::AddReg(x, y)),
        x != 15,
    ensures
        spec_execute(inst, m, rb) matches Ok(m2) && {
            let a = m.reg[x as int];
            let b = m.reg[y as int];
            &&& m2.reg[15] == flag8(a + b > 255)
            &&& (m2.reg[15] == 1 <==> a + b > 255)
            &&& m2.reg[x as int] == add8(a, b)
            &&& m2.reg[x as int] == (a + b) % 256
        },
{
    lemma_decode_wf(inst);
}

/// Subtract with borrow flag: for all register contents `a` and `b`, `8xy5`
/// sets `VF = 1` exactly when `a > b`, and leaves `Vx == (a - b) mod 256`.
/// When `x` or `y` is the flag register the operand is overwritten by the
/// flag before the subtraction reads it, so those cases are left out.
pub proof fn lemma_sub_sets_borrow(inst: u16, m: Model, rb: u8, x: u8, y: u8)
    requires
        m.wf(),
        spec_decode(inst) == Some(Op::SubReg(x, y)),
        x != 15,
        y != 15,
    ensures
        spec_execute(inst, m, rb) matches Ok(m2) && {
            let a = m.reg[x as int];
            let b = m.reg[y as int];
            &&& m2.reg[15] == flag8(a > b)
            &&& (m2.reg[15] == 1 <==> a > b)
            &&& m2.reg[x as int] == sub8(a, b)
            &&& m2.reg[x as int] == (a - b) % 256
        },
{
    lemma_decode_wf(inst);
}

/// The right shift stores in `VF` the bit it shifts out, the low bit of the
/// old `Vx`, never the post-shift value; `Vx` becomes the old value halved.
pub proof fn lemma_shr_flags_shifted_out_bit(inst: u16, m: Model, rb: u8, x: u8, y: u8)
    requires
        m.wf(),
        spec_decode(inst) == Some(Op::ShiftRight(x, y)),
        x != 15,
    ensures
        spec_execute(inst, m, rb) matches Ok(m2) && {
            let v = m.reg[x as int];
            &&& m2.reg[15] == v & 1
            &&& m2.reg[x as int] == v >> 1u8
        },
{
    lemma_decode_wf(inst);
}

/// The left shift stores in `VF` the bit it shifts out, the high bit of the
/// old `Vx`, never the post-shift value; `Vx` becomes the old value doubled,
/// wrapping.
pub proof fn lemma_shl_flags_shifted_out_bit(inst: u16, m: Model, rb: u8, x: u8, y: u8)
    requires
        m.wf(),
        spec_decode(inst) == Some(Op::ShiftLeft(x, y)),
        x != 15,
    ensures
        spec_execute(inst, m, rb) matches Ok(m2) && {
            let v = m.reg[x as int];
            &&& m2.reg[15] == (v >> 7u8) & 1
            &&& m2.reg[x as int] == v << 1u8
        },
{
    lemma_decode_wf(inst);
}

/// The register dump/reload round trip: storing `V0..Vx` to memory and
/// reloading from the same index into any fresh register bank reproduces the
/// original register contents exactly, for any `x` in `0..16`.
pub proof fn lemma_store_load_round_trip(m: Model, fresh: Model, x: u8, rb: u8)
    requires
        m.wf(),
        fresh.wf(),
        x < 16,
        m.i + x + 1 <= MEM_SIZE,
        fresh.i == m.i,
        spec_apply(Op::StoreRegs(x), m, rb) matches Ok(ms) && fresh.memory == ms.memory,
    ensures
        spec_apply(Op::LoadRegs(x), fresh, rb) matches Ok(mr) && forall|j: int|
            0 <= j <= x ==> mr.reg[j] == m.reg[j],
{
}

/// Call then return: entering a subroutine and returning restores the
/// program counter to the address immediately after the call (the value it
/// held when the call executed, the step loop having already advanced it)
/// and the stack pointer to its pre-call value.
pub proof fn lemma_call_return(call: u16, m: Model, nnn: u16, rb1: u8, rb2: u8)
    requires
        m.wf(),
        m.sp < 16,
        spec_decode(call) == Some(Op::Call(nnn)),
    ensures
        spec_execute(call, m, rb1) matches Ok(m1) && spec_execute(0x00EE, m1, rb2) matches Ok(m2)
            && m2.pc == m.pc && m2.sp == m.sp,
{
    lemma_decode_wf(call);
    assert(spec_decode(0x00EE) == Some(Op::Ret));
}

/// The random byte is masked with the immediate: whatever the random source
/// produced, `Cxkk` leaves `Vx == byte & kk`; with `kk = 0` the register is
/// always `0`, and with `kk = 0x0F` it is always below `16`.
pub proof fn lemma_random_masked(inst: u16, m: Model, rb: u8, x: u8, kk: u8)
    requires
        m.wf(),
        spec_decode(inst) == Some(Op::Random(x, kk)),
    ensures
        spec_execute(inst, m, rb) matches Ok(m2) && {
            &&& m2.reg[x as int] == rb & kk
            &&& kk == 0 ==> m2.reg[x as int] == 0
            &&& kk == 0x0F ==> m2.reg[x as int] < 16
        },
{
    lemma_decode_wf(inst);
    assert(rb & 0 == 0) by (bit_vector);
    assert(rb & 0x0F < 16) by (bit_vector);
}

/// Classification is total and failure is explicit: any instruction word
/// that matches no defined shape executes to exactly the invalid-opcode
/// fault, on every machine.
pub proof fn lemma_invalid_opcode(inst: u16, m: Model, rb: u8)
    requires
        spec_decode(inst) is None,
    ensures
        spec_execute(inst, m, rb) == Err::<Model, Fault>(Fault::InvalidOpcode),
{
}

} // verus!
