//! The execution engine and the step loop.
//!
//! The engine's behavior is pinned down by a mathematical model: [`Model`]
//! captures the machine state together with the display and keypad, and
//! [`spec_execute`] maps an instruction word, a pre-state and a random byte
//! to either the exact post-state or a fault. The executable
//! [`execute_with_random`] is proved to produce precisely that post-state;
//! [`execute`] draws the random byte from the thread-local generator, so its
//! contract holds for some byte; [`step`] fetches, advances and dispatches.

use vstd::prelude::*;
use rand::Rng;

verus! {

use crate::decode::{decode, op_wf, spec_decode, Op};
use crate::io::{draw_collides, draw_grid, spec_key_down, Io, DISPLAY_PIXELS, NUM_KEYS};
use crate::machine::Emulator;
use crate::{wrap16, Fault, FONT_BASE, LOAD_OFFSET, MEM_SIZE, NUM_REGS, STACK_SIZE};

/// The mathematical model of one machine together with its capabilities:
/// plain sequences and integers, one field per piece of machine and
/// capability state.
#[verifier::ext_equal]
pub ghost struct Model {
    /// Machine memory.
    pub memory: Seq<u8>,
    /// Registers `V0..VF`.
    pub reg: Seq<u8>,
    /// Call stack slots.
    pub stack: Seq<u16>,
    /// Program counter.
    pub pc: u16,
    /// Number of stack slots in use.
    pub sp: u8,
    /// Index register.
    pub i: u16,
    /// Delay timer.
    pub delay_t: u8,
    /// Sound timer.
    pub sound_t: u8,
    /// Display pixel buffer.
    pub grid: Seq<bool>,
    /// Keypad key states.
    pub keys: Seq<bool>,
    /// Pending key press, if any.
    pub pressed: Option<u8>,
}

impl Model {
    /// Structural well-formedness: the fixed sizes of every component and a
    /// stack pointer within capacity, as [`crate::machine::Emulator::wf`] and
    /// [`crate::io::Io::wf`] guarantee of any concrete machine.
    pub open spec fn wf(self) -> bool {
        &&& self.memory.len() == MEM_SIZE
        &&& self.reg.len() == NUM_REGS
        &&& self.stack.len() == STACK_SIZE
        &&& self.sp <= STACK_SIZE
        &&& self.grid.len() == DISPLAY_PIXELS
        &&& self.keys.len() == NUM_KEYS
    }
}

/// The model of a concrete machine and capability bundle.
pub open spec fn model(em: Emulator, io: Io) -> Model {
    Model {
        memory: em.memory@,
        reg: em.reg@,
        stack: em.stack@,
        pc: em.pc,
        sp: em.sp,
        i: em.i,
        delay_t: em.delay_t,
        sound_t: em.sound_t,
        grid: io.display.grid@,
        keys: io.keypad.keys@,
        pressed: io.keypad.pressed,
    }
}

/// Byte addition, wrapping modulo 256.
pub open spec fn add8(a: u8, b: u8) -> u8 {
    ((a + b) % 256) as u8
}

/// Byte subtraction, wrapping modulo 256.
pub open spec fn sub8(a: u8, b: u8) -> u8 {
    ((a - b) % 256) as u8
}

/// The flag register value signalling `cond`: exactly `1` or `0`.
pub open spec fn flag8(cond: bool) -> u8 {
    if cond {
        1
    } else {
        0
    }
}

/// The machine after a conditional skip: the program counter moves one
/// further instruction width if `cond` holds.
pub open spec fn skip_if(m: Model, cond: bool) -> Model {
    if cond {
        Model { pc: wrap16(m.pc + 2), ..m }
    } else {
        m
    }
}

/// `dst` with `data` written over the block starting at `at`; everything
/// outside the block keeps its value.
pub open spec fn store_block(dst: Seq<u8>, at: int, data: Seq<u8>) -> Seq<u8> {
    Seq::new(
        dst.len(),
        |k: int|
            if at <= k < at + data.len() {
                data[k - at]
            } else {
                dst[k]
            },
    )
}

/// The state transition of one decoded operation: the exact post-state on
/// success, or the fault it raises. `rb` is the byte the random source
/// produced, consulted only by `Cxkk`.
pub open spec fn spec_apply(op: Op, m: Model, rb: u8) -> Result<Model, Fault> {
    match op {
        Op::Cls => Ok(Model { grid: Seq::new(m.grid.len(), |p: int| false), ..m }),
        Op::Ret => if m.sp == 0 {
            Err(Fault::StackUnderflow)
        } else {
            Ok(Model { pc: m.stack[m.sp - 1], sp: (m.sp - 1) as u8, ..m })
        },
        Op::Jump(nnn) => Ok(Model { pc: nnn, ..m }),
        Op::Call(nnn) => if m.sp >= STACK_SIZE {
            Err(Fault::StackOverflow)
        } else {
            Ok(
                Model {
                    stack: m.stack.update(m.sp as int, m.pc),
                    sp: (m.sp + 1) as u8,
                    pc: nnn,
                    ..m
                },
            )
        },
        Op::SkipEqImm(x, kk) => Ok(skip_if(m, m.reg[x as int] == kk)),
        Op::SkipNeImm(x, kk) => Ok(skip_if(m, m.reg[x as int] != kk)),
        Op::SkipEqReg(x, y) => Ok(skip_if(m, m.reg[x as int] == m.reg[y as int])),
        Op::LoadImm(x, kk) => Ok(Model { reg: m.reg.update(x as int, kk), ..m }),
        Op::AddImm(x, kk) => Ok(
            Model { reg: m.reg.update(x as int, add8(m.reg[x as int], kk)), ..m },
        ),
        Op::Move(x, y) => Ok(Model { reg: m.reg.update(x as int, m.reg[y as int]), ..m }),
        Op::Or(x, y) => Ok(
            Model { reg: m.reg.update(x as int, m.reg[x as int] | m.reg[y as int]), ..m },
        ),
        Op::And(x, y) => Ok(
            Model { reg: m.reg.update(x as int, m.reg[x as int] & m.reg[y as int]), ..m },
        ),
        Op::Xor(x, y) => Ok(
            Model { reg: m.reg.update(x as int, m.reg[x as int] ^ m.reg[y as int]), ..m },
        ),
        Op::AddReg(x, y) => {
            let sum = m.reg[x as int] + m.reg[y as int];
            let written = m.reg.update(x as int, add8(m.reg[x as int], m.reg[y as int]));
            Ok(Model { reg: written.update(15, flag8(sum > 255)), ..m })
        },
        Op::SubReg(x, y) => {
            let flagged = m.reg.update(15, flag8(m.reg[x as int] > m.reg[y as int]));
            Ok(
                Model {
                    reg: flagged.update(x as int, sub8(flagged[x as int], flagged[y as int])),
                    ..m
                },
            )
        },
        Op::ShiftRight(x, _y) => {
            let flagged = m.reg.update(15, m.reg[x as int] & 1);
            Ok(Model { reg: flagged.update(x as int, flagged[x as int] >> 1u8), ..m })
        },
        Op::SubFrom(x, y) => {
            let flagged = m.reg.update(15, flag8(m.reg[y as int] > m.reg[x as int]));
            Ok(
                Model {
                    reg: flagged.update(x as int, sub8(flagged[y as int], flagged[x as int])),
                    ..m
                },
            )
        },
        Op::ShiftLeft(x, _y) => {
            let flagged = m.reg.update(15, (m.reg[x as int] >> 7u8) & 1);
            Ok(Model { reg: flagged.update(x as int, flagged[x as int] << 1u8), ..m })
        },
        Op::SkipNeReg(x, y) => Ok(skip_if(m, m.reg[x as int] != m.reg[y as int])),
        Op::LoadIndex(nnn) => Ok(Model { i: nnn, ..m }),
        Op::JumpOffset(nnn) => Ok(Model { pc: wrap16(nnn + m.reg[0]), ..m }),
        Op::Random(x, kk) => Ok(Model { reg: m.reg.update(x as int, rb & kk), ..m }),
        Op::Draw(x, y, n) => if m.i + n > MEM_SIZE {
            Err(Fault::MemoryOutOfBounds)
        } else {
            let sprite = m.memory.subrange(m.i as int, m.i + n);
            let sx = m.reg[x as int];
            let sy = m.reg[y as int];
            Ok(
                Model {
                    grid: draw_grid(m.grid, sprite, sx, sy),
                    reg: m.reg.update(15, flag8(draw_collides(m.grid, sprite, sx, sy))),
                    ..m
                },
            )
        },
        Op::SkipKeyDown(x) => Ok(skip_if(m, spec_key_down(m.keys, m.reg[x as int]))),
        Op::SkipKeyUp(x) => Ok(skip_if(m, !spec_key_down(m.keys, m.reg[x as int]))),
        Op::ReadDelay(x) => Ok(Model { reg: m.reg.update(x as int, m.delay_t), ..m }),
        Op::WaitKey(x) => match m.pressed {
            Some(k) => Ok(Model { reg: m.reg.update(x as int, k), pressed: None, ..m }),
            None => Ok(Model { pc: wrap16(m.pc - 2), ..m }),
        },
        Op::SetDelay(x) => Ok(Model { delay_t: m.reg[x as int], ..m }),
        Op::SetSound(x) => Ok(Model { sound_t: m.reg[x as int], ..m }),
        Op::AddIndex(x) => Ok(Model { i: wrap16(m.i + m.reg[x as int]), ..m }),
        Op::FontAddr(x) => Ok(Model { i: (FONT_BASE + 5 * m.reg[x as int]) as u16, ..m }),
        Op::StoreBcd(x) => if m.i + 3 > MEM_SIZE {
            Err(Fault::MemoryOutOfBounds)
        } else {
            let v = m.reg[x as int];
            Ok(
                Model {
                    memory: m.memory.update(m.i as int, (v / 100) as u8).update(
                        m.i + 1,
                        ((v / 10) % 10) as u8,
                    ).update(m.i + 2, (v % 10) as u8),
                    ..m
                },
            )
        },
        Op::StoreRegs(x) => if m.i + x + 1 > MEM_SIZE {
            Err(Fault::MemoryOutOfBounds)
        } else {
            Ok(Model { memory: store_block(m.memory, m.i as int, m.reg.take(x + 1)), ..m })
        },
        Op::LoadRegs(x) => if m.i + x + 1 > MEM_SIZE {
            Err(Fault::MemoryOutOfBounds)
        } else {
            Ok(
                Model {
                    reg: store_block(m.reg, 0, m.memory.subrange(m.i as int, m.i + x + 1)),
                    ..m
                },
            )
        },
    }
}

/// The total semantics of one instruction word: classification followed by
/// the operation's transition; an unrecognized word is the invalid-opcode
/// fault.
pub open spec fn spec_execute(inst: u16, m: Model, rb: u8) -> Result<Model, Fault> {
    match spec_decode(inst) {
        Some(op) => spec_apply(op, m, rb),
        None => Err(Fault::InvalidOpcode),
    }
}

/// What executing `inst` on `pre` guarantees, given that the random source
/// produced `rb`: on success the machine becomes exactly the model
/// post-state; on a fault the machine is untouched and exactly that fault is
/// reported.
pub open spec fn execute_post(
    inst: u16,
    pre: Model,
    post: Model,
    r: Result<(), Fault>,
    rb: u8,
) -> bool {
    match spec_execute(inst, pre, rb) {
        Ok(m) => r == Ok::<(), Fault>(()) && post == m,
        Err(f) => r == Err::<(), Fault>(f) && post == pre,
    }
}

/// Relies on `rand::thread_rng` and `rand::Rng::gen_range` over `0..=255`: a
/// byte from the thread-local generator, uniformly distributed. Nothing is
/// promised of the value; callers state what holds of every outcome.
#[verifier::external_body]
fn random_byte() -> u8 {
    rand::thread_rng().gen_range(0u8..=255u8)
}

/// What applying the already-decoded operation `op` to `pre` guarantees,
/// given that the random source produced `rb`: on success the machine
/// becomes exactly the model post-state, on a fault it is untouched and
/// exactly that fault is reported.
pub open spec fn apply_post(op: Op, pre: Model, post: Model, r: Result<(), Fault>, rb: u8) -> bool {
    match spec_apply(op, pre, rb) {
        Ok(m) => r == Ok::<(), Fault>(()) && post == m,
        Err(f) => r == Err::<(), Fault>(f) && post == pre,
    }
}

/// Applies the system operations: clear, return, jump and call.
#[verifier::rlimit(100)]
#[verifier::spinoff_prover]
fn exec_sys(op: Op, em: &mut Emulator, io: &mut Io, rb: u8) -> (r: Result<(), Fault>)
    requires
        old(em).wf(),
        old(io).wf(),
        op_wf(op),
        (op matches Op::Cls) || (op matches Op::Ret) || (op matches Op::Jump(_)) || (
        op matches Op::Call(_)),
    ensures
        final(em).wf(),
        final(io).wf(),
        apply_post(op, model(*old(em), *old(io)), model(*final(em), *final(io)), r, rb),
{
    let ghost pre = model(*old(em), *old(io));
    let ghost target = spec_apply(op, pre, rb);
    match op {
        Op::Cls => {
            io.display.clear();
            proof {
                assert(target matches Ok(mm) && model(*em, *io) =~= mm);
            }
            Ok(())
        },
        Op::Ret => {
            if em.sp == 0 {
                return Err(Fault::StackUnderflow);
            }
            let loc = em.pop();
            em.jmp(loc);
            proof {
                assert(target matches Ok(mm) && model(*em, *io) =~= mm);
            }
            Ok(())
        },
        Op::Jump(nnn) => {
            em.jmp(nnn);
            proof {
                assert(target matches Ok(mm) && model(*em, *io) =~= mm);
            }
            Ok(())
        },
        Op::Call(nnn) => {
            if em.sp as usize >= STACK_SIZE {
                return Err(Fault::StackOverflow);
            }
            let here = em.pc;
            em.push(here);
            em.jmp(nnn);
            proof {
                assert(target matches Ok(mm) && model(*em, *io) =~= mm);
            }
            Ok(())
        },
        _ => {
            proof {
                assert(false);
            }
            Err(Fault::InvalidOpcode)
        },
    }
}

/// Applies the conditional skips: against an immediate, between registers,
/// and on the keypad state.
#[verifier::rlimit(100)]
#[verifier::spinoff_prover]
fn exec_skip(op: Op, em: &mut Emulator, io: &mut Io, rb: u8) -> (r: Result<(), Fault>)
    requires
        old(em).wf(),
        old(io).wf(),
        op_wf(op),
        (op matches Op::SkipEqImm(_, _)) || (op matches Op::SkipNeImm(_, _)) || (
        op matches Op::SkipEqReg(_, _)) || (op matches Op::SkipNeReg(_, _)) || (
        op matches Op::SkipKeyDown(_)) || (op matches Op::SkipKeyUp(_)),
    ensures
        final(em).wf(),
        final(io).wf(),
        apply_post(op, model(*old(em), *old(io)), model(*final(em), *final(io)), r, rb),
{
    let ghost pre = model(*old(em), *old(io));
    let ghost target = spec_apply(op, pre, rb);
    match op {
        Op::SkipEqImm(x, kk) => {
            if em.reg[x as usize] == kk {
                em.next();
            }
            proof {
                assert(target matches Ok(mm) && model(*em, *io) =~= mm);
            }
            Ok(())
        },
        Op::SkipNeImm(x, kk) => {
            if em.reg[x as usize] != kk {
                em.next();
            }
            proof {
                assert(target matches Ok(mm) && model(*em, *io) =~= mm);
            }
            Ok(())
        },
        Op::SkipEqReg(x, y) => {
            if em.reg[x as usize] == em.reg[y as usize] {
                em.next();
            }
            proof {
                assert(target matches Ok(mm) && model(*em, *io) =~= mm);
            }
            Ok(())
        },
        Op::SkipNeReg(x, y) => {
            if em.reg[x as usize] != em.reg[y as usize] {
                em.next();
            }
            proof {
                assert(target matches Ok(mm) && model(*em, *io) =~= mm);
            }
            Ok(())
        },
        Op::SkipKeyDown(x) => {
            if io.keypad.is_down(em.reg[x as usize]) {
                em.next();
            }
            proof {
                assert(target matches Ok(mm) && model(*em, *io) =~= mm);
            }
            Ok(())
        },
        Op::SkipKeyUp(x) => {
            if !io.keypad.is_down(em.reg[x as usize]) {
                em.next();
            }
            proof {
                assert(target matches Ok(mm) && model(*em, *io) =~= mm);
            }
            Ok(())
        },
        _ => {
            proof {
                assert(false);
            }
            Err(Fault::InvalidOpcode)
        },
    }
}

/// Applies the flag-free register operations: load, wrapping add of an
/// immediate, move, and the bitwise operations.
#[verifier::rlimit(100)]
#[verifier::spinoff_prover]
fn exec_alu(op: Op, em: &mut Emulator, io: &mut Io, rb: u8) -> (r: Result<(), Fault>)
    requires
        old(em).wf(),
        old(io).wf(),
        op_wf(op),
        (op matches Op::LoadImm(_, _)) || (op matches Op::AddImm(_, _)) || (
        op matches Op::Move(_, _)) || (op matches Op::Or(_, _)) || (op matches Op::And(_, _)) || (
        op matches Op::Xor(_, _)),
    ensures
        final(em).wf(),
        final(io).wf(),
        apply_post(op, model(*old(em), *old(io)), model(*final(em), *final(io)), r, rb),
{
    let ghost pre = model(*old(em), *old(io));
    let ghost target = spec_apply(op, pre, rb);
    match op {
        Op::LoadImm(x, kk) => {
            em.reg[x as usize] = kk;
            proof {
                assert(target matches Ok(mm) && model(*em, *io) =~= mm);
            }
            Ok(())
        },
        Op::AddImm(x, kk) => {
            let v = em.reg[x as usize];
            em.reg[x as usize] = v.wrapping_add(kk);
            proof {
                assert(v.wrapping_add(kk) == add8(v, kk));
                assert(target matches Ok(mm) && model(*em, *io) =~= mm);
            }
            Ok(())
        },
        Op::Move(x, y) => {
            em.reg[x as usize] = em.reg[y as usize];
            proof {
                assert(target matches Ok(mm) && model(*em, *io) =~= mm);
            }
            Ok(())
        },
        Op::Or(x, y) => {
            let v = em.reg[x as usize] | em.reg[y as usize];
            em.reg[x as usize] = v;
            proof {
                assert(target matches Ok(mm) && model(*em, *io) =~= mm);
            }
            Ok(())
        },
        Op::And(x, y) => {
            let v = em.reg[x as usize] & em.reg[y as usize];
            em.reg[x as usize] = v;
            proof {
                assert(target matches Ok(mm) && model(*em, *io) =~= mm);
            }
            Ok(())
        },
        Op::Xor(x, y) => {
            let v = em.reg[x as usize] ^ em.reg[y as usize];
            em.reg[x as usize] = v;
            proof {
                assert(target matches Ok(mm) && model(*em, *io) =~= mm);
            }
            Ok(())
        },
        _ => {
            proof {
                assert(false);
            }
            Err(Fault::InvalidOpcode)
        },
    }
}

/// Applies the register operations that also set the flag register: add with
/// carry, the two subtractions with borrow flags, and the shifts.
#[verifier::rlimit(100)]
#[verifier::spinoff_prover]
fn exec_alu_flags(op: Op, em: &mut Emulator, io: &mut Io, rb: u8) -> (r: Result<(), Fault>)
    requires
        old(em).wf(),
        old(io).wf(),
        op_wf(op),
        (op matches Op::AddReg(_, _)) || (op matches Op::SubReg(_, _)) || (
        op matches Op::ShiftRight(_, _)) || (op matches Op::SubFrom(_, _)) || (
        op matches Op::ShiftLeft(_, _)),
    ensures
        final(em).wf(),
        final(io).wf(),
        apply_post(op, model(*old(em), *old(io)), model(*final(em), *final(io)), r, rb),
{
    let ghost pre = model(*old(em), *old(io));
    let ghost target = spec_apply(op, pre, rb);
    match op {
        Op::AddReg(x, y) => {
            let a = em.reg[x as usize];
            let b = em.reg[y as usize];
            em.reg[x as usize] = a.wrapping_add(b);
            em.set_flag(a as u16 + b as u16 > 255);
            proof {
                assert(a.wrapping_add(b) == add8(a, b));
                assert(target matches Ok(mm) && model(*em, *io) =~= mm);
            }
            Ok(())
        },
        Op::SubReg(x, y) => {
            let a = em.reg[x as usize];
            let b = em.reg[y as usize];
            em.set_flag(a > b);
            let a2 = em.reg[x as usize];
            let b2 = em.reg[y as usize];
            em.reg[x as usize] = a2.wrapping_sub(b2);
            proof {
                assert(a2.wrapping_sub(b2) == sub8(a2, b2));
                assert(target matches Ok(mm) && model(*em, *io) =~= mm);
            }
            Ok(())
        },
        Op::ShiftRight(x, _y) => {
            let v0 = em.reg[x as usize];
            proof {
                assert(v0 & 1 == 0 || v0 & 1 == 1) by (bit_vector);
            }
            em.set_flag(v0 & 1 == 1);
            let v = em.reg[x as usize];
            em.reg[x as usize] = v >> 1;
            proof {
                assert(target matches Ok(mm) && model(*em, *io) =~= mm);
            }
            Ok(())
        },
        Op::SubFrom(x, y) => {
            let a = em.reg[x as usize];
            let b = em.reg[y as usize];
            em.set_flag(b > a);
            let a2 = em.reg[x as usize];
            let b2 = em.reg[y as usize];
            em.reg[x as usize] = b2.wrapping_sub(a2);
            proof {
                assert(b2.wrapping_sub(a2) == sub8(b2, a2));
                assert(target matches Ok(mm) && model(*em, *io) =~= mm);
            }
            Ok(())
        },
        Op::ShiftLeft(x, _y) => {
            let v0 = em.reg[x as usize];
            proof {
                assert((v0 >> 7) & 1 == 0 || (v0 >> 7) & 1 == 1) by (bit_vector);
            }
            em.set_flag((v0 >> 7) & 1 == 1);
            let v = em.reg[x as usize];
            em.reg[x as usize] = v << 1;
            proof {
                assert(target matches Ok(mm) && model(*em, *io) =~= mm);
            }
            Ok(())
        },
        _ => {
            proof {
                assert(false);
            }
            Err(Fault::InvalidOpcode)
        },
    }
}

/// Applies the index-register operations: load, offset jump, add to index
/// and font-sprite addressing.
#[verifier::rlimit(100)]
#[verifier::spinoff_prover]
fn exec_index(op: Op, em: &mut Emulator, io: &mut Io, rb: u8) -> (r: Result<(), Fault>)
    requires
        old(em).wf(),
        old(io).wf(),
        op_wf(op),
        (op matches Op::LoadIndex(_)) || (op matches Op::JumpOffset(_)) || (
        op matches Op::AddIndex(_)) || (op matches Op::FontAddr(_)),
    ensures
        final(em).wf(),
        final(io).wf(),
        apply_post(op, model(*old(em), *old(io)), model(*final(em), *final(io)), r, rb),
{
    let ghost pre = model(*old(em), *old(io));
    let ghost target = spec_apply(op, pre, rb);
    match op {
        Op::LoadIndex(nnn) => {
            em.i = nnn;
            proof {
                assert(target matches Ok(mm) && model(*em, *io) =~= mm);
            }
            Ok(())
        },
        Op::JumpOffset(nnn) => {
            let dest = nnn + em.reg[0] as u16;
            em.jmp(dest);
            proof {
                assert(target matches Ok(mm) && model(*em, *io) =~= mm);
            }
            Ok(())
        },
        Op::AddIndex(x) => {
            let v = em.reg[x as usize] as u16;
            em.i = em.i.wrapping_add(v);
            proof {
                assert(target matches Ok(mm) && model(*em, *io) =~= mm);
            }
            Ok(())
        },
        Op::FontAddr(x) => {
            let v = em.reg[x as usize] as u16;
            em.i = FONT_BASE + 5 * v;
            proof {
                assert(target matches Ok(mm) && model(*em, *io) =~= mm);
            }
            Ok(())
        },
        _ => {
            proof {
                assert(false);
            }
            Err(Fault::InvalidOpcode)
        },
    }
}

/// Applies the miscellaneous register transfers: the random byte, the
/// timers, and waiting for a key.
#[verifier::rlimit(100)]
#[verifier::spinoff_prover]
fn exec_misc(op: Op, em: &mut Emulator, io: &mut Io, rb: u8) -> (r: Result<(), Fault>)
    requires
        old(em).wf(),
        old(io).wf(),
        op_wf(op),
        (op matches Op::Random(_, _)) || (op matches Op::ReadDelay(_)) || (
        op matches Op::WaitKey(_)) || (op matches Op::SetDelay(_)) || (op matches Op::SetSound(_)),
    ensures
        final(em).wf(),
        final(io).wf(),
        apply_post(op, model(*old(em), *old(io)), model(*final(em), *final(io)), r, rb),
{
    let ghost pre = model(*old(em), *old(io));
    let ghost target = spec_apply(op, pre, rb);
    match op {
        Op::Random(x, kk) => {
            em.reg[x as usize] = rb & kk;
            proof {
                assert(target matches Ok(mm) && model(*em, *io) =~= mm);
            }
            Ok(())
        },
        Op::ReadDelay(x) => {
            em.reg[x as usize] = em.delay_t;
            proof {
                assert(target matches Ok(mm) && model(*em, *io) =~= mm);
            }
            Ok(())
        },
        Op::WaitKey(x) => {
            match io.keypad.poll_pressed() {
                Some(k) => {
                    em.reg[x as usize] = k;
                },
                None => {
                    em.pc = em.pc.wrapping_sub(2);
                },
            }
            proof {
                assert(target matches Ok(mm) && model(*em, *io) =~= mm);
            }
            Ok(())
        },
        Op::SetDelay(x) => {
            em.delay_t = em.reg[x as usize];
            proof {
                assert(target matches Ok(mm) && model(*em, *io) =~= mm);
            }
            Ok(())
        },
        Op::SetSound(x) => {
            em.sound_t = em.reg[x as usize];
            proof {
                assert(target matches Ok(mm) && model(*em, *io) =~= mm);
            }
            Ok(())
        },
        _ => {
            proof {
                assert(false);
            }
            Err(Fault::InvalidOpcode)
        },
    }
}

/// Applies the operations that read or write a block of memory: sprite
/// drawing, the decimal store, and the register dump and reload.
#[verifier::rlimit(100)]
#[verifier::spinoff_prover]
fn exec_mem(op: Op, em: &mut Emulator, io: &mut Io, rb: u8) -> (r: Result<(), Fault>)
    requires
        old(em).wf(),
        old(io).wf(),
        op_wf(op),
        (op matches Op::Draw(_, _, _)) || (op matches Op::StoreBcd(_)) || (
        op matches Op::StoreRegs(_)) || (op matches Op::LoadRegs(_)),
    ensures
        final(em).wf(),
        final(io).wf(),
        apply_post(op, model(*old(em), *old(io)), model(*final(em), *final(io)), r, rb),
{
    let ghost pre = model(*old(em), *old(io));
    let ghost target = spec_apply(op, pre, rb);
    match op {
        Op::Draw(x, y, n) => {
            let at = em.i as usize;
            let len = n as usize;
            if at + len > MEM_SIZE {
                return Err(Fault::MemoryOutOfBounds);
            }
            let mut sprite: Vec<u8> = Vec::new();
            for j in 0..len
                invariant
                    em.wf(),
                    at + len <= MEM_SIZE,
                    at == em.i,
                    sprite@.len() == j,
                    forall|k: int| 0 <= k < j ==> sprite@[k] == em.memory@[at + k],
            {
                let byte = em.memory[at + j];
                sprite.push(byte);
            }
            proof {
                assert(sprite@ =~= pre.memory.subrange(pre.i as int, pre.i + n));
            }
            let sx = em.reg[x as usize];
            let sy = em.reg[y as usize];
            let collided = io.display.draw(sx, sy, sprite.as_slice());
            em.set_flag(collided);
            proof {
                assert(target matches Ok(mm) && model(*em, *io) =~= mm);
            }
            Ok(())
        },
        Op::StoreBcd(x) => {
            let at = em.i as usize;
            if at + 3 > MEM_SIZE {
                return Err(Fault::MemoryOutOfBounds);
            }
            let v = em.reg[x as usize];
            em.memory[at] = v / 100;
            em.memory[at + 1] = (v / 10) % 10;
            em.memory[at + 2] = v % 10;
            proof {
                assert(target matches Ok(mm) && model(*em, *io) =~= mm);
            }
            Ok(())
        },
        Op::StoreRegs(x) => {
            let at = em.i as usize;
            let count = x as usize + 1;
            if at + count > MEM_SIZE {
                return Err(Fault::MemoryOutOfBounds);
            }
            for j in 0..count
                invariant
                    em.wf(),
                    at + count <= MEM_SIZE,
                    count == x + 1,
                    x < 16,
                    at == pre.i,
                    em.reg@ == pre.reg,
                    em.stack@ == pre.stack,
                    em.pc == pre.pc,
                    em.sp == pre.sp,
                    em.i == pre.i,
                    em.delay_t == pre.delay_t,
                    em.sound_t == pre.sound_t,
                    em.memory@ == store_block(pre.memory, at as int, pre.reg.take(j as int)),
                    pre.memory.len() == MEM_SIZE,
            {
                let val = em.reg[j];
                em.memory[at + j] = val;
                proof {
                    assert(em.memory@ =~= store_block(
                        pre.memory,
                        at as int,
                        pre.reg.take(j as int + 1),
                    ));
                }
            }
            proof {
                assert(target matches Ok(mm) && model(*em, *io) =~= mm);
            }
            Ok(())
        },
        Op::LoadRegs(x) => {
            let at = em.i as usize;
            let count = x as usize + 1;
            if at + count > MEM_SIZE {
                return Err(Fault::MemoryOutOfBounds);
            }
            for j in 0..count
                invariant
                    em.wf(),
                    at + count <= MEM_SIZE,
                    count == x + 1,
                    x < 16,
                    at == pre.i,
                    em.memory@ == pre.memory,
                    em.stack@ == pre.stack,
                    em.pc == pre.pc,
                    em.sp == pre.sp,
                    em.i == pre.i,
                    em.delay_t == pre.delay_t,
                    em.sound_t == pre.sound_t,
                    em.reg@ == store_block(pre.reg, 0, pre.memory.subrange(at as int, at + j)),
                    pre.reg.len() == NUM_REGS,
            {
                let val = em.memory[at + j];
                em.reg[j] = val;
                proof {
                    assert(em.reg@ =~= store_block(
                        pre.reg,
                        0,
                        pre.memory.subrange(at as int, at + j + 1),
                    ));
                }
            }
            proof {
                assert(target matches Ok(mm) && model(*em, *io) =~= mm);
            }
            Ok(())
        },
        _ => {
            proof {
                assert(false);
            }
            Err(Fault::InvalidOpcode)
        },
    }
}

/// Executes one instruction with an explicitly supplied random byte: the
/// machine and capabilities move to exactly the state [`spec_execute`]
/// prescribes, or stay untouched on exactly the fault it prescribes.
pub fn execute_with_random(inst: u16, em: &mut Emulator, io: &mut Io, rb: u8) -> (r: Result<
    (),
    Fault,
>)
    requires
        old(em).wf(),
        old(io).wf(),
    ensures
        final(em).wf(),
        final(io).wf(),
        execute_post(inst, model(*old(em), *old(io)), model(*final(em), *final(io)), r, rb),
{
    let decoded = decode(inst);
    let op = match decoded {
        Some(op) => op,
        None => {
            return Err(Fault::InvalidOpcode);
        },
    };
    match op {
        Op::Cls | Op::Ret | Op::Jump(_) | Op::Call(_) => exec_sys(op, em, io, rb),
        Op::SkipEqImm(_, _) | Op::SkipNeImm(_, _) | Op::SkipEqReg(_, _) | Op::SkipNeReg(_, _)
            | Op::SkipKeyDown(_) | Op::SkipKeyUp(_) => exec_skip(op, em, io, rb),
        Op::LoadImm(_, _) | Op::AddImm(_, _) | Op::Move(_, _) | Op::Or(_, _) | Op::And(_, _)
            | Op::Xor(_, _) => exec_alu(op, em, io, rb),
        Op::AddReg(_, _) | Op::SubReg(_, _) | Op::ShiftRight(_, _) | Op::SubFrom(_, _)
            | Op::ShiftLeft(_, _) => exec_alu_flags(op, em, io, rb),
        Op::LoadIndex(_) | Op::JumpOffset(_) | Op::AddIndex(_) | Op::FontAddr(_) => exec_index(
            op,
            em,
            io,
            rb,
        ),
        Op::Random(_, _) | Op::ReadDelay(_) | Op::WaitKey(_) | Op::SetDelay(_) | Op::SetSound(
            _,
        ) => exec_misc(op, em, io, rb),
        Op::Draw(_, _, _) | Op::StoreBcd(_) | Op::StoreRegs(_) | Op::LoadRegs(_) => exec_mem(
            op,
            em,
            io,
            rb,
        ),
    }
}

/// Executes one instruction, drawing the random byte for `Cxkk` from the
/// thread-local generator: the machine moves to the state [`spec_execute`]
/// prescribes for some byte, since nothing more is known of the source.
pub fn execute(inst: u16, em: &mut Emulator, io: &mut Io) -> (r: Result<(), Fault>)
    requires
        old(em).wf(),
        old(io).wf(),
    ensures
        final(em).wf(),
        final(io).wf(),
        exists|rb: u8|
            execute_post(inst, model(*old(em), *old(io)), model(*final(em), *final(io)), r, rb),
{
    let rb = random_byte();
    let r = execute_with_random(inst, em, io, rb);
    proof {
        assert(execute_post(inst, model(*old(em), *old(io)), model(*em, *io), r, rb));
    }
    r
}

/// The big-endian instruction word at the program counter.
pub open spec fn fetched(m: Model) -> u16 {
    ((m.memory[m.pc as int] as u16) << 8u16) | (m.memory[m.pc + 1] as u16)
}

/// The machine with the program counter already advanced past the fetched
/// instruction, the state in which the instruction then executes.
pub open spec fn advanced(m: Model) -> Model {
    Model { pc: (m.pc + 2) as u16, ..m }
}

/// What one step on `pre` guarantees when the fetch is in bounds: the fetched
/// word executes, per [`execute_post`], in the advanced state.
pub open spec fn step_post(pre: Model, post: Model, r: Result<(), Fault>, rb: u8) -> bool {
    execute_post(fetched(pre), advanced(pre), post, r, rb)
}

/// One tick of the fetch-decode-execute cycle: fetches the big-endian word
/// at `pc`, advances `pc` by two before dispatch (so that jumps overwrite it
/// and skips add one further width), then executes. A program counter too
/// close to the end of memory to fetch from is the out-of-bounds fault, with
/// the machine untouched.
pub fn step(em: &mut Emulator, io: &mut Io) -> (r: Result<(), Fault>)
    requires
        old(em).wf(),
        old(io).wf(),
    ensures
        final(em).wf(),
        final(io).wf(),
        old(em).pc + 2 > MEM_SIZE ==> r == Err::<(), Fault>(Fault::MemoryOutOfBounds) && *final(em)
            == *old(em) && *final(io) == *old(io),
        old(em).pc + 2 <= MEM_SIZE ==> exists|rb: u8|
            step_post(model(*old(em), *old(io)), model(*final(em), *final(io)), r, rb),
{
    if em.pc as usize + 2 > MEM_SIZE {
        return Err(Fault::MemoryOutOfBounds);
    }
    let at = em.pc as usize;
    let hi = em.memory[at];
    let lo = em.memory[at + 1];
    let inst = ((hi as u16) << 8) | (lo as u16);
    em.pc = em.pc + 2;
    let ghost mid = model(*em, *io);
    let r = execute(inst, em, io);
    proof {
        assert(mid =~= advanced(model(*old(em), *old(io))));
        assert(inst == fetched(model(*old(em), *old(io))));
        let rb = choose|rb: u8| execute_post(inst, mid, model(*em, *io), r, rb);
        assert(step_post(model(*old(em), *old(io)), model(*em, *io), r, rb));
    }
    r
}

/// One successful tick relates two models: the fetch was in bounds and, for
/// some byte from the random source, the second state is what [`step_post`]
/// prescribes.
pub open spec fn step_rel(a: Model, b: Model) -> bool {
    a.pc + 2 <= MEM_SIZE && exists|rb: u8| step_post(a, b, Ok::<(), Fault>(()), rb)
}

/// `tr` is a chain of machine states from `a` to `b` in which each state
/// steps to the next.
pub open spec fn reaches(tr: Seq<Model>, a: Model, b: Model) -> bool {
    &&& tr.len() >= 1
    &&& tr[0] == a
    &&& tr.last() == b
    &&& forall|i: int| 0 <= i < tr.len() - 1 ==> step_rel(tr[i], #[trigger] tr[i + 1])
}

/// A step from `a` faults with `f`: either the fetch itself is out of
/// bounds, or the fetched word executes to that fault for some random byte.
pub open spec fn step_faults(a: Model, f: Fault) -> bool {
    ||| a.pc + 2 > MEM_SIZE && f == Fault::MemoryOutOfBounds
    ||| (a.pc + 2 <= MEM_SIZE && exists|rb: u8|
        spec_execute(fetched(a), advanced(a), rb) == Err::<Model, Fault>(f))
}

/// The model of a machine freshly loaded with `program`: the image at
/// [`LOAD_OFFSET`], the program counter on its first byte, everything else
/// zeroed, the display blank and the keypad idle.
pub open spec fn loaded_model(program: Seq<u8>) -> Model {
    Model {
        memory: Seq::new(
            MEM_SIZE as nat,
            |k: int|
                if LOAD_OFFSET <= k < LOAD_OFFSET + program.len() {
                    program[k - LOAD_OFFSET]
                } else {
                    0u8
                },
        ),
        reg: Seq::new(NUM_REGS as nat, |k: int| 0u8),
        stack: Seq::new(STACK_SIZE as nat, |k: int| 0u16),
        pc: LOAD_OFFSET,
        sp: 0,
        i: 0,
        delay_t: 0,
        sound_t: 0,
        grid: Seq::new(DISPLAY_PIXELS as nat, |p: int| false),
        keys: Seq::new(NUM_KEYS as nat, |k: int| false),
        pressed: None,
    }
}

/// Whether `pc` lies inside the loaded program region of `len` bytes.
pub open spec fn in_program(pc: u16, len: nat) -> bool {
    LOAD_OFFSET <= pc < LOAD_OFFSET + len
}

/// Loads `program` at [`LOAD_OFFSET`] into a fresh machine with a blank
/// display and idle keypad, then steps it until the program counter leaves
/// the program region, a fault occurs, or `max_steps` ticks have run.
/// Termination is otherwise host-defined, so the step budget is the host's
/// choice.
///
/// On a clean exit the final machine and capabilities are handed back, and
/// they are genuinely reached from the loaded state by a chain of steps that
/// ended only because the program counter left the program or the budget ran
/// out. A fault aborts the run and is reported instead, and it is the fault
/// of a step from some reached state.
pub fn run(program: &[u8], max_steps: usize) -> (r: Result<(Emulator, Io), Fault>)
    requires
        program@.len() <= MEM_SIZE - LOAD_OFFSET,
    ensures
        r matches Ok(p) ==> p.0.wf() && p.1.wf() && exists|tr: Seq<Model>|
            {
                &&& #[trigger] reaches(tr, loaded_model(program@), model(p.0, p.1))
                &&& tr.len() <= max_steps + 1
                &&& tr.len() == max_steps + 1 || !in_program(p.0.pc, program@.len())
            },
        r matches Err(f) ==> exists|tr: Seq<Model>|
            {
                &&& #[trigger] reaches(tr, loaded_model(program@), tr.last())
                &&& tr.len() <= max_steps + 1
                &&& step_faults(tr.last(), f)
            },
{
    let mut em = Emulator::load(program);
    let mut io = Io::new();
    proof {
        let lm = loaded_model(program@);
        assert(em.memory@ =~= lm.memory);
        assert(em.reg@ =~= lm.reg);
        assert(em.stack@ =~= lm.stack);
        assert(io.display.grid@ =~= lm.grid);
        assert(io.keypad.keys@ =~= lm.keys);
        assert(model(em, io) =~= lm);
    }
    let ghost m0 = loaded_model(program@);
    let ghost mut tr: Seq<Model> = seq![model(em, io)];
    let end: usize = LOAD_OFFSET as usize + program.len();
    let mut steps: usize = 0;
    while steps < max_steps && LOAD_OFFSET <= em.pc && (em.pc as usize) < end
        invariant
            em.wf(),
            io.wf(),
            steps <= max_steps,
            end == LOAD_OFFSET + program@.len(),
            m0 == loaded_model(program@),
            tr.len() == steps + 1,
            reaches(tr, m0, model(em, io)),
        decreases max_steps - steps,
    {
        let ghost prev = model(em, io);
        match step(&mut em, &mut io) {
            Ok(()) => {},
            Err(f) => {
                proof {
                    if prev.pc + 2 <= MEM_SIZE {
                        let rb = choose|rb: u8|
                            step_post(prev, model(em, io), Err::<(), Fault>(f), rb);
                        assert(spec_execute(fetched(prev), advanced(prev), rb) == Err::<
                            Model,
                            Fault,
                        >(f));
                    }
                    assert(step_faults(prev, f));
                    assert(reaches(tr, m0, tr.last()) && tr.len() <= max_steps + 1
                        && step_faults(tr.last(), f));
                }
                return Err(f);
            },
        }
        proof {
            let cur = model(em, io);
            let rb = choose|rb: u8| step_post(prev, cur, Ok::<(), Fault>(()), rb);
            assert(step_rel(prev, cur));
            let tr2 = tr.push(cur);
            assert forall|i2: int| 0 <= i2 < tr2.len() - 1 implies step_rel(
                tr2[i2],
                #[trigger] tr2[i2 + 1],
            ) by {
                if i2 < tr.len() - 1 {
                    assert(step_rel(tr[i2], tr[i2 + 1]));
                }
            }
            tr = tr2;
        }
        steps = steps + 1;
    }
    proof {
        assert(reaches(tr, m0, model(em, io)) && tr.len() <= max_steps + 1 && (tr.len()
            == max_steps + 1 || !in_program(em.pc, program@.len())));
    }
    Ok((em, io))
}

} // verus!
