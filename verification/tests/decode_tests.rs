// Decoder classification: the exact opcode-to-instruction mapping,
// including the malformed sub-cases and the register-offset jump's
// precedence quirk.

use chip8::Cpu;
use chip8::Instruction;
use chip8::System;

#[test]
fn decode_basic_families() {
    let cpu = Cpu::new();
    assert_eq!(cpu.decode_word(0x00E0, 0), Instruction::ClearScreen);
    assert_eq!(cpu.decode_word(0x00EE, 0), Instruction::Return);
    assert_eq!(cpu.decode_word(0x1234, 0), Instruction::Jump(0x234));
    assert_eq!(cpu.decode_word(0x2345, 0), Instruction::Call(0x345));
    assert_eq!(cpu.decode_word(0x3A42, 0), Instruction::VxNNSkip(0xA, 0x42));
    assert_eq!(cpu.decode_word(0x4A42, 0), Instruction::VxNNNotSkip(0xA, 0x42));
    assert_eq!(cpu.decode_word(0x5AB0, 0), Instruction::VxVySkip(0xA, 0xB));
    assert_eq!(cpu.decode_word(0x6A42, 0), Instruction::SetRegister(0xA, 0x42));
    assert_eq!(cpu.decode_word(0x7A42, 0), Instruction::AddRegister(0xA, 0x42));
    assert_eq!(cpu.decode_word(0x8AB4, 0), Instruction::VxBitAddVy(0xA, 0xB));
    assert_eq!(cpu.decode_word(0x8AB6, 0), Instruction::VxBitShiftRVy(0xA, 0xB));
    assert_eq!(cpu.decode_word(0x9AB0, 0), Instruction::VxNotVySkip(0xA, 0xB));
    assert_eq!(cpu.decode_word(0xA123, 0), Instruction::SetIndexRegister(0x123));
    assert_eq!(cpu.decode_word(0xEA9E, 0), Instruction::KeyVxSkip(0xA));
    assert_eq!(cpu.decode_word(0xEAA1, 0), Instruction::KeyNotVxSkip(0xA));
    assert_eq!(cpu.decode_word(0xFA07, 0), Instruction::SetTimerVx(0xA));
    assert_eq!(cpu.decode_word(0xFA0A, 0), Instruction::GetKeyVx(0xA));
    assert_eq!(cpu.decode_word(0xFA15, 0), Instruction::GetTimerVx(0xA));
    assert_eq!(cpu.decode_word(0xFA18, 0), Instruction::SetSoundTimerVx(0xA));
    assert_eq!(cpu.decode_word(0xFA1E, 0), Instruction::AddIVx(0xA));
    assert_eq!(cpu.decode_word(0xFA29, 0), Instruction::SetISprite(0xA));
    assert_eq!(cpu.decode_word(0xFA33, 0), Instruction::BCDVX(0xA));
    assert_eq!(cpu.decode_word(0xFA55, 0), Instruction::RegDump(0xA));
    assert_eq!(cpu.decode_word(0xFA65, 0), Instruction::RegLoad(0xA));
}

#[test]
fn decode_malformed_sub_cases() {
    let cpu = Cpu::new();
    assert_eq!(cpu.decode_word(0x0123, 0), Instruction::Invalid(0x0123));
    assert_eq!(cpu.decode_word(0x5AB1, 0), Instruction::Invalid(0x5AB1));
    assert_eq!(cpu.decode_word(0x8AB8, 0), Instruction::Invalid(0x8AB8));
    assert_eq!(cpu.decode_word(0x9AB5, 0), Instruction::Invalid(0x9AB5));
    assert_eq!(cpu.decode_word(0xEA00, 0), Instruction::Invalid(0xEA00));
    assert_eq!(cpu.decode_word(0xFAFF, 0), Instruction::Invalid(0xFAFF));
}

#[test]
fn decode_draw_carries_register_values() {
    let mut cpu = Cpu::new();
    cpu.set_v(12, 1);
    cpu.set_v(34, 2);
    assert_eq!(cpu.decode_word(0xD125, 0), Instruction::Draw(12, 34, 5));
}

#[test]
fn decode_v0_jump_precedence() {
    // The addition binds tighter than the mask: the register is added to
    // the whole opcode and the sum is masked, so the high opcode nibble
    // takes part in the arithmetic before the mask cuts it away.
    let mut cpu = Cpu::new();
    cpu.set_v(5, 0);
    assert_eq!(cpu.decode_word(0xB123, 0), Instruction::V0Jump(0x128));
    // V0 = 0xFF on 0xBFFF: (0xFF + 0xBFFF) & 0xFFF = 0x0FE.
    cpu.set_v(0xFF, 0);
    assert_eq!(cpu.decode_word(0xBFFF, 0), Instruction::V0Jump(0x0FE));
}

#[test]
fn decode_rand_masks_byte() {
    let cpu = Cpu::new();
    assert_eq!(cpu.decode_word(0xC3FF, 0x5A), Instruction::VxRand(0x3, 0x5A));
    assert_eq!(cpu.decode_word(0xC30F, 0xF0), Instruction::VxRand(0x3, 0x00));
    assert_eq!(cpu.decode_word(0xC3F0, 0xBC), Instruction::VxRand(0x3, 0xB0));
}

#[test]
fn rand_register_takes_masked_byte() {
    // The engine stores whatever masked byte the decode produced.
    let mut emu = System::new();
    emu.execute(Instruction::VxRand(0x3, 0x2A), &[false; 16]);
    assert!(emu.test_eq_v(0x3, 0x2A));
}
