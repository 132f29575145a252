use chip8::engine::execute;
use chip8::io::Io;
use chip8::machine::Emulator;

#[test]
fn test_instructions_0_1_2() {
    let mut em = Emulator::default();
    let mut io = Io::new();
    em.pc = 10;
    execute(0x20FF, &mut em, &mut io).unwrap(); // call 0FF
    assert_eq!(em.pc, 0x0FF);
    assert_eq!(em.sp, 1);
    em.pc = 0x0FF;
    execute(0x00EE, &mut em, &mut io).unwrap(); // return
    assert_eq!(em.sp, 0);
    assert_eq!(em.pc, 10);
    execute(0x10AB, &mut em, &mut io).unwrap(); // jmp to 0AB
    assert_eq!(em.pc, 0x0AB);
}

#[test]
fn test_instructions_3_4_5() {
    let mut em = Emulator::default();
    let mut io = Io::new();
    em.reg[0] = 0xF2;
    execute(0x30F2, &mut em, &mut io).unwrap();
    assert_eq!(em.pc, 2);
    execute(0x40F3, &mut em, &mut io).unwrap();
    assert_eq!(em.pc, 4);
    execute(0x40F2, &mut em, &mut io).unwrap();
    assert_eq!(em.pc, 4);
    em.reg[1] = 0xF2;
    execute(0x5010, &mut em, &mut io).unwrap();
    assert_eq!(em.pc, 6);
}

#[test]
fn test_instructions_6_7() {
    let mut em = Emulator::default();
    let mut io = Io::new();
    execute(0x60AB, &mut em, &mut io).unwrap();
    assert_eq!(em.reg[0], 0xAB);
    execute(0x69FF, &mut em, &mut io).unwrap();
    assert_eq!(em.reg[9], 0xFF);
    execute(0x7001, &mut em, &mut io).unwrap();
    assert_eq!(em.reg[0], 0xAC);
}

#[test]
fn instructions_8xyz() {
    let mut em = Emulator::default();
    let mut io = Io::new();
    em.reg[1] = 2;
    // 0 store V1 in V0
    execute(0x8010, &mut em, &mut io).unwrap();
    assert_eq!(em.reg[0], 2);

    // 1 OR V0 and V1, expected result in V0
    em.reg[0] = 0b10011111;
    em.reg[1] = 0b11010001;
    execute(0x8011, &mut em, &mut io).unwrap();
    assert_eq!(em.reg[0], 0b11011111);

    // 2 AND V0 and V1, expected result in V0
    em.reg[0] = 0b11011111;
    em.reg[1] = 0b10010001;
    execute(0x8012, &mut em, &mut io).unwrap();
    assert_eq!(em.reg[0], 0b10010001);

    // 3 XOR V0 and V1, expected result in V0
    em.reg[0] = 0b11011111;
    em.reg[1] = 0b10010001;
    execute(0x8013, &mut em, &mut io).unwrap();
    assert_eq!(em.reg[0], 0b01001110);

    // 4 ADD V1 to V0, overflow => flag
    em.reg[0] = 10;
    em.reg[1] = 10;
    execute(0x8014, &mut em, &mut io).unwrap();
    assert_eq!(em.reg[0], 20);
    assert_eq!(em.reg[0xF], 0);
    em.reg[0] = 255;
    em.reg[1] = 11;
    execute(0x8014, &mut em, &mut io).unwrap();
    assert_eq!(em.reg[0], 10);
    assert_eq!(em.reg[0xF], 1);

    // 5 SUB V1 from V0, V0 > V1 => flag
    em.reg[0] = 20;
    em.reg[1] = 10;
    execute(0x8015, &mut em, &mut io).unwrap();
    assert_eq!(em.reg[0], 10);
    assert_eq!(em.reg[0xF], 1);
    em.reg[0] = 0;
    em.reg[1] = 1;
    execute(0x8015, &mut em, &mut io).unwrap();
    assert_eq!(em.reg[0], 255);
    assert_eq!(em.reg[0xF], 0);

    // 6 SHR shift V0 right by one bit, the bit shifted out => flag
    em.reg[0] = 0b10000000;
    em.reg[1] = 0;
    execute(0x8016, &mut em, &mut io).unwrap();
    assert_eq!(em.reg[0], 0b01000000);
    assert_eq!(em.reg[0xF], 0);
    em.reg[0] = 0b00000001;
    em.reg[1] = 0;
    execute(0x8016, &mut em, &mut io).unwrap();
    assert_eq!(em.reg[0], 0b00000000);
    assert_eq!(em.reg[0xF], 1);

    // 7 subtract V0 from V1, V1 > V0 => flag
    em.reg[0] = 10;
    em.reg[1] = 20;
    execute(0x8017, &mut em, &mut io).unwrap();
    assert_eq!(em.reg[0], 10);
    assert_eq!(em.reg[0xF], 1);
    em.reg[0] = 1;
    em.reg[1] = 0;
    execute(0x8017, &mut em, &mut io).unwrap();
    assert_eq!(em.reg[0], 255);
    assert_eq!(em.reg[0xF], 0);

    // E SHL shift V0 left by one bit, the bit shifted out => flag
    em.reg[0] = 0b00000001;
    em.reg[1] = 0;
    execute(0x801E, &mut em, &mut io).unwrap();
    assert_eq!(em.reg[0], 0b00000010);
    assert_eq!(em.reg[0xF], 0);
    em.reg[0] = 0b10000000;
    em.reg[1] = 0;
    execute(0x801E, &mut em, &mut io).unwrap();
    assert_eq!(em.reg[0], 0b00000000);
    assert_eq!(em.reg[0xF], 1);
}

#[test]
fn instruction_9() {
    let mut em = Emulator::default();
    let mut io = Io::new();
    em.reg[0] = 10;
    em.reg[1] = 11;
    execute(0x9010, &mut em, &mut io).unwrap();
    assert_eq!(em.pc, 2);
    execute(0x9EE0, &mut em, &mut io).unwrap();
    assert_eq!(em.pc, 2);
}

#[test]
fn instruction_a_b_c() {
    let mut em = Emulator::default();
    let mut io = Io::new();
    execute(0xA123, &mut em, &mut io).unwrap();
    assert_eq!(em.i, 0x123);
    em.reg[0] = 100;
    execute(0xB123, &mut em, &mut io).unwrap();
    assert_eq!(em.pc, 100 + 0x123);

    execute(0xC000, &mut em, &mut io).unwrap();
    assert_eq!(em.reg[0], 0); // is 0 because the kk value is AND with the random value
    execute(0xC00F, &mut em, &mut io).unwrap();
    assert!(em.reg[0] < 0x10);
}

#[test]
fn instruction_f() {
    let mut em = Emulator::default();
    let mut io = Io::new();

    em.delay_t = 245;
    execute(0xF007, &mut em, &mut io).unwrap();
    assert_eq!(em.reg[0], 245);

    execute(0xF115, &mut em, &mut io).unwrap(); // set delay_t = V1
    assert_eq!(em.delay_t, 0);

    em.reg[0] = 13;
    execute(0xF018, &mut em, &mut io).unwrap(); // set sound_t = V0
    assert_eq!(em.sound_t, 13);

    em.reg[0] = 1;
    em.i = 10;
    execute(0xF01E, &mut em, &mut io).unwrap(); // i = i + v0
    assert_eq!(em.i, 11);

    em.i = 0;
    em.reg[0] = 255;
    em.reg[1] = 99;
    em.reg[2] = 1;
    execute(0xF033, &mut em, &mut io).unwrap();
    em.i = 3;
    execute(0xF133, &mut em, &mut io).unwrap();
    em.i = 6;
    execute(0xF233, &mut em, &mut io).unwrap();

    assert_eq!(&em.memory[0..9], &[2, 5, 5, 0, 9, 9, 0, 0, 1]);

    // store all registers from 0 including A in memory at i
    for i in 0..=0xAu8 {
        em.reg[i as usize] = i + 1;
    }
    em.i = 100;
    execute(0xFA55, &mut em, &mut io).unwrap();
    assert_eq!(&em.memory[100..=110], &[1, 2, 3, 4, 5, 6, 7, 8, 9, 10, 11]);

    // load all registers from 0 including A from memory at i
    for i in 0..=0xAu8 {
        em.memory[i as usize] = i + 1;
    }
    em.i = 0;
    execute(0xFA65, &mut em, &mut io).unwrap();
    assert_eq!(&em.reg[0..=10], &[1, 2, 3, 4, 5, 6, 7, 8, 9, 10, 11]);
}
