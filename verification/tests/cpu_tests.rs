// The register-to-register instruction tests: each loads a two-byte program
// holding one opcode, presets the registers to 1..=0xF, runs one tick and
// checks V0 (and VF where the instruction sets it).

use chip8::System;

// SETUP
fn vx_test(instruction: u16, val: u8) -> System {
    let mut emu = System::new();
    emu.load_test(vec![
        ((instruction & 0xFF00) >> 8) as u8,
        (instruction & 0x00FF) as u8,
    ]);
    emu.load_test_v(vec![
        0x1, 0x2, 0x3, 0x4, 0x5, 0x6, 0x7, 0x8, 0x9, 0xA, 0xB, 0xC, 0xD, 0xE, 0xF,
    ]);
    emu.tick(&keys_setup());
    assert!(emu.test_eq_v(0x0, val));
    emu
}

fn keys_setup() -> [bool; 16] {
    [false; 16]
}

// VX TESTS

#[test]
fn vx_set_vy() {
    vx_test(0x8020, 0x3);
}

#[test]
fn vx_bit_or_vy() {
    vx_test(0x8021, 0x3);
}

#[test]
fn vx_bit_and_vy() {
    vx_test(0x8022, 0x1);
}

#[test]
fn vx_bit_x_or_vy() {
    vx_test(0x8023, 0x2);
}

#[test]
fn vx_bit_add_vy() {
    assert!(vx_test(0x8024, 0x4).test_eq_v(0xF, 0));
}

#[test]
fn vx_sub_vy() {
    vx_test(0x8025, 0xFE);
}

#[test]
fn vx_bit_shift_r_vy() {
    assert!(vx_test(0x8046, 0x0).test_eq_v(0xF, 0x1));
}

// More register arithmetic through the same harness.

#[test]
fn vx_bit_shift_l_vy() {
    // V0 = 0x88: the shift doubles into 0x10 and VF takes V0 & 0b1000.
    let mut emu = System::new();
    emu.load_test(vec![0x80, 0x4E]);
    emu.load_test_v(vec![0x88]);
    emu.tick(&keys_setup());
    assert!(emu.test_eq_v(0x0, 0x10));
    assert!(emu.test_eq_v(0xF, 0x8));
}

#[test]
fn vx_minus_vy() {
    // 8XY7 with V0=1, V2=3: V0 = 3 - 1 = 2; no borrow, VF = 1.
    assert!(vx_test(0x8027, 0x2).test_eq_v(0xF, 1));
}

#[test]
fn vx_bit_add_vy_carry() {
    // V0 = 0xFF, V2 = 0x3: sum wraps to 2 and the carry reaches VF.
    let mut emu = System::new();
    emu.load_test(vec![0x80, 0x24]);
    emu.load_test_v(vec![0xFF, 0x0, 0x3]);
    emu.tick(&keys_setup());
    assert!(emu.test_eq_v(0x0, 0x2));
    assert!(emu.test_eq_v(0xF, 1));
}

#[test]
fn vx_sub_vy_borrow() {
    // V0 = 0x1, V2 = 0x2: 1 - 2 wraps to 0xFF and VF reports the borrow
    // with 0.
    let mut emu = System::new();
    emu.load_test(vec![0x80, 0x25]);
    emu.load_test_v(vec![0x1, 0x0, 0x2]);
    emu.tick(&keys_setup());
    assert!(emu.test_eq_v(0x0, 0xFF));
    assert!(emu.test_eq_v(0xF, 0));
}

#[test]
fn add_register_wraps() {
    // 7XNN wraps without touching VF: 1 + 0xFF = 0.
    let mut emu = System::new();
    emu.load_test(vec![0x70, 0xFF]);
    emu.load_test_v(vec![0x1]);
    emu.tick(&keys_setup());
    assert!(emu.test_eq_v(0x0, 0x0));
    assert!(emu.test_eq_v(0xF, 0x0));
}

#[test]
fn set_register() {
    let mut emu = System::new();
    emu.load_test(vec![0x63, 0xAB]);
    emu.tick(&keys_setup());
    assert!(emu.test_eq_v(0x3, 0xAB));
}
