use chip8::decode::{decode, extract_0nnn, extract_0xii, extract_0xkk, extract_0xy0, extract_0xyz, Op};
use chip8::engine::{execute, execute_with_random, run, step};
use chip8::io::Io;
use chip8::machine::Emulator;
use chip8::Fault;

#[test]
fn load_immediate_is_exact() {
    let mut em = Emulator::default();
    let mut io = Io::new();
    for kk in [0u8, 1, 0x7F, 0xFE, 0xFF] {
        let inst = 0x6300 | kk as u16;
        execute(inst, &mut em, &mut io).unwrap();
        assert_eq!(em.reg[3], kk);
    }
}

#[test]
fn add_immediate_wraps_without_flag() {
    let mut em = Emulator::default();
    let mut io = Io::new();
    em.reg[2] = 250;
    em.reg[0xF] = 9;
    execute(0x720A, &mut em, &mut io).unwrap();
    assert_eq!(em.reg[2], 4); // (250 + 10) mod 256
    assert_eq!(em.reg[0xF], 9); // VF untouched by 7xkk
}

#[test]
fn add_carry_boundary_cases() {
    let mut em = Emulator::default();
    let mut io = Io::new();
    // 255 + 255 = 510: result 254, carry set
    em.reg[0] = 255;
    em.reg[1] = 255;
    execute(0x8014, &mut em, &mut io).unwrap();
    assert_eq!(em.reg[0], 254);
    assert_eq!(em.reg[0xF], 1);
    // 200 + 55 = 255: no carry
    em.reg[0] = 200;
    em.reg[1] = 55;
    execute(0x8014, &mut em, &mut io).unwrap();
    assert_eq!(em.reg[0], 255);
    assert_eq!(em.reg[0xF], 0);
}

#[test]
fn sub_equal_values_clears_flag() {
    let mut em = Emulator::default();
    let mut io = Io::new();
    em.reg[4] = 77;
    em.reg[5] = 77;
    execute(0x8455, &mut em, &mut io).unwrap();
    assert_eq!(em.reg[4], 0);
    assert_eq!(em.reg[0xF], 0); // 77 > 77 is false
}

#[test]
fn subn_reverse_difference() {
    let mut em = Emulator::default();
    let mut io = Io::new();
    em.reg[6] = 5;
    em.reg[7] = 200;
    execute(0x8675, &mut em, &mut io).unwrap(); // V6 := V6 - V7, borrow
    assert_eq!(em.reg[6], 61); // (5 - 200) mod 256
    assert_eq!(em.reg[0xF], 0);
    em.reg[6] = 5;
    em.reg[7] = 200;
    execute(0x8677, &mut em, &mut io).unwrap(); // V6 := V7 - V6
    assert_eq!(em.reg[6], 195);
    assert_eq!(em.reg[0xF], 1);
}

#[test]
fn shifts_report_shifted_out_bit_not_result() {
    let mut em = Emulator::default();
    let mut io = Io::new();
    // 0b0000_0011 >> 1 = 0b0000_0001: the shifted-out low bit is 1 even
    // though the result is odd; VF must be the shifted-out bit.
    em.reg[2] = 0b0000_0011;
    execute(0x8206, &mut em, &mut io).unwrap();
    assert_eq!(em.reg[2], 0b0000_0001);
    assert_eq!(em.reg[0xF], 1);
    // 0b1100_0000 << 1 = 0b1000_0000: the shifted-out high bit is 1 even
    // though the post-shift high bit is also 1; VF must be the old high bit.
    em.reg[2] = 0b1100_0000;
    execute(0x820E, &mut em, &mut io).unwrap();
    assert_eq!(em.reg[2], 0b1000_0000);
    assert_eq!(em.reg[0xF], 1);
}

#[test]
fn bcd_store_scenario() {
    let mut em = Emulator::default();
    let mut io = Io::new();
    em.reg[0] = 255;
    em.i = 0;
    execute(0xF033, &mut em, &mut io).unwrap();
    assert_eq!(&em.memory[0..3], &[2, 5, 5]);
    em.reg[1] = 0;
    em.i = 3;
    execute(0xF133, &mut em, &mut io).unwrap();
    assert_eq!(&em.memory[3..6], &[0, 0, 0]);
}

#[test]
fn store_load_round_trip_full_bank() {
    let mut em = Emulator::default();
    let mut io = Io::new();
    for j in 0..16u8 {
        em.reg[j as usize] = 0xF0 | j;
    }
    em.i = 0x300;
    execute(0xFF55, &mut em, &mut io).unwrap(); // dump V0..VF
    let saved: Vec<u8> = em.reg.clone();
    let mut em2 = Emulator::default();
    em2.memory = em.memory.clone();
    em2.i = 0x300;
    execute(0xFF65, &mut em2, &mut io).unwrap(); // reload V0..VF
    assert_eq!(em2.reg, saved);
}

#[test]
fn store_load_round_trip_partial_bank() {
    let mut em = Emulator::default();
    let mut io = Io::new();
    em.reg[0] = 11;
    em.reg[1] = 22;
    em.reg[2] = 33;
    em.reg[3] = 99; // beyond x, must not be stored
    em.i = 0x400;
    execute(0xF255, &mut em, &mut io).unwrap(); // dump V0..V2
    assert_eq!(&em.memory[0x400..0x404], &[11, 22, 33, 0]);
    let mut em2 = Emulator::default();
    em2.memory = em.memory.clone();
    em2.i = 0x400;
    em2.reg[3] = 55;
    execute(0xF265, &mut em2, &mut io).unwrap(); // reload V0..V2
    assert_eq!(&em2.reg[0..3], &[11, 22, 33]);
    assert_eq!(em2.reg[3], 55); // beyond x, untouched
}

#[test]
fn call_return_restores_pc_and_sp() {
    let mut em = Emulator::default();
    let mut io = Io::new();
    em.pc = 0x208;
    em.sp = 3; // pending frames survive the round trip
    execute(0x2F00, &mut em, &mut io).unwrap();
    assert_eq!(em.pc, 0xF00);
    assert_eq!(em.sp, 4);
    execute(0x00EE, &mut em, &mut io).unwrap();
    assert_eq!(em.pc, 0x208);
    assert_eq!(em.sp, 3);
}

#[test]
fn random_masked_with_zero_is_zero() {
    let mut em = Emulator::default();
    let mut io = Io::new();
    em.reg[1] = 0xAA;
    execute(0xC100, &mut em, &mut io).unwrap();
    assert_eq!(em.reg[1], 0);
    for _ in 0..32 {
        execute(0xC20F, &mut em, &mut io).unwrap();
        assert!(em.reg[2] < 16);
    }
}

#[test]
fn random_with_explicit_byte_is_masked_exactly() {
    let mut em = Emulator::default();
    let mut io = Io::new();
    execute_with_random(0xC3F0, &mut em, &mut io, 0b1010_1010).unwrap();
    assert_eq!(em.reg[3], 0b1010_0000);
}

#[test]
fn invalid_opcodes_fault() {
    let mut io = Io::new();
    for inst in [0xFFFFu16, 0x0000, 0x0123, 0x00E1, 0x5011, 0x8018, 0x800F, 0x9003, 0xE000, 0xE1FF,
        0xF000, 0xF166]
    {
        let mut em = Emulator::default();
        em.pc = 77;
        assert_eq!(execute(inst, &mut em, &mut io), Err(Fault::InvalidOpcode));
        assert_eq!(em.pc, 77); // a fault leaves the machine untouched
    }
}

#[test]
fn stack_underflow_and_overflow_fault() {
    let mut em = Emulator::default();
    let mut io = Io::new();
    assert_eq!(execute(0x00EE, &mut em, &mut io), Err(Fault::StackUnderflow));
    for _ in 0..16 {
        execute(0x2100, &mut em, &mut io).unwrap();
    }
    assert_eq!(em.sp, 16);
    assert_eq!(execute(0x2100, &mut em, &mut io), Err(Fault::StackOverflow));
    assert_eq!(em.sp, 16);
}

#[test]
fn memory_out_of_bounds_faults() {
    let mut em = Emulator::default();
    let mut io = Io::new();
    em.i = 4094;
    assert_eq!(execute(0xF033, &mut em, &mut io), Err(Fault::MemoryOutOfBounds));
    em.i = 4093;
    execute(0xF033, &mut em, &mut io).unwrap(); // last three bytes still fit
    em.i = 4086;
    assert_eq!(execute(0xFA55, &mut em, &mut io), Err(Fault::MemoryOutOfBounds));
    em.i = 4085;
    execute(0xFA55, &mut em, &mut io).unwrap(); // eleven bytes still fit
    em.i = 4092;
    assert_eq!(execute(0xD005, &mut em, &mut io), Err(Fault::MemoryOutOfBounds));
}

#[test]
fn index_opcodes() {
    let mut em = Emulator::default();
    let mut io = Io::new();
    em.reg[0] = 0xA;
    execute(0xF029, &mut em, &mut io).unwrap(); // font sprite for digit A
    assert_eq!(em.i, 0x50 + 5 * 0xA);
    em.i = 0xFFFF;
    em.reg[1] = 2;
    execute(0xF11E, &mut em, &mut io).unwrap(); // 16-bit add wraps, no flag defined
    assert_eq!(em.i, 1);
}

#[test]
fn draw_sets_pixels_and_collision_flag() {
    let mut em = Emulator::default();
    let mut io = Io::new();
    em.memory[0] = 0b1000_0001; // leftmost and rightmost pixel of the row
    em.i = 0;
    em.reg[0] = 3; // x
    em.reg[1] = 5; // y
    execute(0xD011, &mut em, &mut io).unwrap();
    assert!(io.display.grid[5 * 64 + 3]);
    assert!(io.display.grid[5 * 64 + 10]);
    assert!(!io.display.grid[5 * 64 + 4]);
    assert_eq!(em.reg[0xF], 0);
    // drawing the same sprite again erases it and reports the collision
    execute(0xD011, &mut em, &mut io).unwrap();
    assert!(!io.display.grid[5 * 64 + 3]);
    assert!(!io.display.grid[5 * 64 + 10]);
    assert_eq!(em.reg[0xF], 1);
}

#[test]
fn draw_wraps_around_both_edges() {
    let mut em = Emulator::default();
    let mut io = Io::new();
    em.memory[0] = 0b1100_0000;
    em.memory[1] = 0b1000_0000;
    em.i = 0;
    em.reg[0] = 63; // last column
    em.reg[1] = 31; // last row
    execute(0xD012, &mut em, &mut io).unwrap();
    assert!(io.display.grid[31 * 64 + 63]); // (63, 31)
    assert!(io.display.grid[31 * 64]); // wrapped to column 0
    assert!(io.display.grid[63]); // second row wrapped to row 0
    assert_eq!(em.reg[0xF], 0);
}

#[test]
fn clear_display() {
    let mut em = Emulator::default();
    let mut io = Io::new();
    em.memory[0] = 0xFF;
    em.i = 0;
    execute(0xD001, &mut em, &mut io).unwrap();
    execute(0x00E0, &mut em, &mut io).unwrap();
    assert!(io.display.grid.iter().all(|&p| !p));
}

#[test]
fn keypad_skips() {
    let mut em = Emulator::default();
    let mut io = Io::new();
    em.reg[0] = 4;
    io.keypad.keys[4] = true;
    execute(0xE09E, &mut em, &mut io).unwrap(); // key down: skip
    assert_eq!(em.pc, 2);
    execute(0xE0A1, &mut em, &mut io).unwrap(); // key down: no skip
    assert_eq!(em.pc, 2);
    io.keypad.keys[4] = false;
    execute(0xE09E, &mut em, &mut io).unwrap(); // key up: no skip
    assert_eq!(em.pc, 2);
    execute(0xE0A1, &mut em, &mut io).unwrap(); // key up: skip
    assert_eq!(em.pc, 4);
}

#[test]
fn wait_for_key_retries_until_pressed() {
    let mut em = Emulator::default();
    let mut io = Io::new();
    em.pc = 0x202; // as if the instruction at 0x200 was just fetched
    execute(0xF00A, &mut em, &mut io).unwrap();
    assert_eq!(em.pc, 0x200); // no key: retry the same instruction
    io.keypad.pressed = Some(7);
    em.pc = 0x202;
    execute(0xF00A, &mut em, &mut io).unwrap();
    assert_eq!(em.pc, 0x202); // key consumed, no retry
    assert_eq!(em.reg[0], 7);
    assert_eq!(io.keypad.pressed, None);
}

#[test]
fn step_fetches_big_endian_and_advances() {
    let mut em = Emulator::default();
    let mut io = Io::new();
    em.pc = 0x200;
    em.memory[0x200] = 0x61;
    em.memory[0x201] = 0x23;
    step(&mut em, &mut io).unwrap();
    assert_eq!(em.reg[1], 0x23);
    assert_eq!(em.pc, 0x202);
}

#[test]
fn step_with_pc_too_high_faults() {
    let mut em = Emulator::default();
    let mut io = Io::new();
    em.pc = 4095;
    assert_eq!(step(&mut em, &mut io), Err(Fault::MemoryOutOfBounds));
    assert_eq!(em.pc, 4095);
}

#[test]
fn run_small_program() {
    // V0 := 5; V1 := 7; V0 := V0 + V1; then pc leaves the program
    let program = [0x60, 0x05, 0x61, 0x07, 0x80, 0x14];
    let (em, _io) = run(&program, 1000).unwrap();
    assert_eq!(em.reg[0], 12);
    assert_eq!(em.reg[1], 7);
    assert_eq!(em.reg[0xF], 0);
    assert_eq!(em.pc, 0x206);
}

#[test]
fn run_stops_at_step_budget() {
    // a jump to its own address loops forever; the budget ends the run
    let program = [0x12, 0x00];
    let (em, _io) = run(&program, 10).unwrap();
    assert_eq!(em.pc, 0x200);
}

#[test]
fn run_reports_fault_of_program() {
    // a bare return underflows the empty stack
    let program = [0x00, 0xEE];
    assert!(matches!(run(&program, 10), Err(Fault::StackUnderflow)));
}

#[test]
fn run_empty_program_exits_at_once() {
    let program: [u8; 0] = [];
    let (em, _io) = run(&program, 10).unwrap();
    assert_eq!(em.pc, 0x200);
}

#[test]
fn loaded_machine_layout() {
    let program = [0xAB, 0xCD, 0xEF];
    let em = Emulator::load(&program);
    assert_eq!(em.pc, 0x200);
    assert_eq!(&em.memory[0x200..0x203], &[0xAB, 0xCD, 0xEF]);
    assert!(em.memory[..0x200].iter().all(|&b| b == 0));
    assert!(em.memory[0x203..].iter().all(|&b| b == 0));
    assert_eq!(em.sp, 0);
    assert_eq!(em.i, 0);
}

#[test]
fn operand_extraction() {
    assert_eq!(extract_0xkk(0x1234), (2, 0x34));
    assert_eq!(extract_0xy0(0x1234), (2, 3));
    assert_eq!(extract_0xyz(0x1234), (2, 3, 4));
    assert_eq!(extract_0xii(0xFA65), (0xA, 0x65));
    assert_eq!(extract_0nnn(0xBFFF), 0xFFF);
    assert_eq!(extract_0nnn(0x1000), 0);
}

#[test]
fn decode_classifies_shapes() {
    assert_eq!(decode(0x00E0), Some(Op::Cls));
    assert_eq!(decode(0x00EE), Some(Op::Ret));
    assert_eq!(decode(0x1ABC), Some(Op::Jump(0xABC)));
    assert_eq!(decode(0x2ABC), Some(Op::Call(0xABC)));
    assert_eq!(decode(0x5120), Some(Op::SkipEqReg(1, 2)));
    assert_eq!(decode(0x8126), Some(Op::ShiftRight(1, 2)));
    assert_eq!(decode(0x812E), Some(Op::ShiftLeft(1, 2)));
    assert_eq!(decode(0xD7A5), Some(Op::Draw(7, 0xA, 5)));
    assert_eq!(decode(0xE29E), Some(Op::SkipKeyDown(2)));
    assert_eq!(decode(0xF30A), Some(Op::WaitKey(3)));
    assert_eq!(decode(0xFFFF), None);
    assert_eq!(decode(0x5121), None);
    assert_eq!(decode(0x8129), None);
}

#[test]
fn keypad_out_of_range_key_is_up() {
    let mut em = Emulator::default();
    let mut io = Io::new();
    em.reg[0] = 200; // no such key
    execute(0xE09E, &mut em, &mut io).unwrap();
    assert_eq!(em.pc, 0); // not down: no skip
    execute(0xE0A1, &mut em, &mut io).unwrap();
    assert_eq!(em.pc, 2); // not down: skip
}
