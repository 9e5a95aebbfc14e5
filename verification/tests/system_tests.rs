// Whole-machine scenarios: control flow, the framebuffer, memory traffic
// through the index register, timers and the keypad.

use chip8::System;

fn no_keys() -> [bool; 16] {
    [false; 16]
}

#[test]
fn clear_screen_zeroes_everything() {
    // Draw the 5-row font glyph 0 at (0, 0), then clear: every pixel is 0
    // afterwards.
    let mut emu = System::new();
    emu.load_test(vec![0xD0, 0x15, 0x00, 0xE0]);
    emu.tick(&no_keys());
    assert_eq!(emu.pixel(0, 0), 1);
    assert!(emu.should_draw());
    emu.tick(&no_keys());
    for x in 0..64 {
        for y in 0..32 {
            assert_eq!(emu.pixel(x, y), 0);
        }
    }
    assert!(emu.should_draw());
}

#[test]
fn draw_twice_restores_and_collides() {
    // The same sprite drawn twice at the same spot: the first draw reports
    // no collision, the second reports one and restores the blank grid.
    let mut emu = System::new();
    emu.load_test(vec![0xD0, 0x15, 0xD0, 0x15]);
    emu.tick(&no_keys());
    assert!(emu.test_eq_v(0xF, 0));
    assert_eq!(emu.pixel(0, 0), 1);
    emu.tick(&no_keys());
    assert!(emu.test_eq_v(0xF, 1));
    for x in 0..64 {
        for y in 0..32 {
            assert_eq!(emu.pixel(x, y), 0);
        }
    }
}

#[test]
fn draw_wraps_around_edges() {
    // Drawing at (62, 30) wraps both coordinates: glyph 0's top row is
    // 0xF0, so columns 62, 63, 0, 1 of row 30 are set, and rows wrap back
    // to 0 and 1.
    let mut emu = System::new();
    emu.load_test(vec![0xD0, 0x15]);
    emu.load_test_v(vec![62, 30]);
    emu.tick(&no_keys());
    assert_eq!(emu.pixel(62, 30), 1);
    assert_eq!(emu.pixel(63, 30), 1);
    assert_eq!(emu.pixel(0, 30), 1);
    assert_eq!(emu.pixel(1, 30), 1);
    assert_eq!(emu.pixel(2, 30), 0);
    // Row 31 of glyph 0 holds 0x90: only the outer columns.
    assert_eq!(emu.pixel(62, 31), 1);
    assert_eq!(emu.pixel(63, 31), 0);
    assert_eq!(emu.pixel(0, 31), 0);
    assert_eq!(emu.pixel(1, 31), 1);
    // And rows 0..2 took the wrapped remainder of the glyph.
    assert_eq!(emu.pixel(62, 0), 1);
    assert_eq!(emu.pixel(62, 2), 1);
}

#[test]
fn bcd_store_and_reg_load() {
    // index = 0x300, BCD of V1 = 234 into memory, then load V0..V2 back:
    // the three decimal digits.
    let mut emu = System::new();
    emu.load_test(vec![0xA3, 0x00, 0xF1, 0x33, 0xF2, 0x65]);
    emu.load_test_v(vec![0x0, 234]);
    emu.tick(&no_keys());
    emu.tick(&no_keys());
    emu.tick(&no_keys());
    assert!(emu.test_eq_v(0x0, 2));
    assert!(emu.test_eq_v(0x1, 3));
    assert!(emu.test_eq_v(0x2, 4));
}

#[test]
fn reg_dump_then_load_round_trip() {
    // Dump V0..V2 at 0x300, wipe the registers, load them back.
    let mut emu = System::new();
    emu.load_test(vec![
        0xA3, 0x00, // index = 0x300
        0xF2, 0x55, // dump V0..V2
        0x60, 0x00, // V0 = 0
        0x61, 0x00, // V1 = 0
        0x62, 0x00, // V2 = 0
        0xA3, 0x00, // index = 0x300 again (the dump advanced it)
        0xF2, 0x65, // load V0..V2
    ]);
    emu.load_test_v(vec![0x11, 0x22, 0x33]);
    for _ in 0..7 {
        emu.tick(&no_keys());
    }
    assert!(emu.test_eq_v(0x0, 0x11));
    assert!(emu.test_eq_v(0x1, 0x22));
    assert!(emu.test_eq_v(0x2, 0x33));
}

#[test]
fn delay_timer_set_and_read() {
    // V5 = 6 feeds the delay timer; it decrements once before the next
    // tick reads it back into V0.
    let mut emu = System::new();
    emu.load_test(vec![0xF5, 0x15, 0xF0, 0x07]);
    emu.load_test_v(vec![0x0, 0x0, 0x0, 0x0, 0x0, 0x6]);
    emu.tick(&no_keys());
    emu.tick(&no_keys());
    assert!(emu.test_eq_v(0x0, 5));
}

#[test]
fn sound_timer_drives_flag() {
    // sound = 2: the flag rises exactly on the tick that sees the timer at
    // 1 before decrementing.
    let mut emu = System::new();
    emu.load_test(vec![0xF8, 0x18, 0x60, 0x00, 0x60, 0x00]);
    emu.load_test_v(vec![0x0, 0x0, 0x0, 0x0, 0x0, 0x0, 0x0, 0x0, 0x2]);
    emu.tick(&no_keys());
    assert!(!emu.should_play_sound());
    emu.tick(&no_keys());
    assert!(emu.should_play_sound());
    emu.tick(&no_keys());
    assert!(!emu.should_play_sound());
}

#[test]
fn skip_if_equal_immediate() {
    // V0 = 1 equals the immediate: the poison 0x60FF is skipped.
    let mut emu = System::new();
    emu.load_test(vec![0x30, 0x01, 0x60, 0xFF, 0x60, 0x05]);
    emu.load_test_v(vec![0x1]);
    emu.tick(&no_keys());
    emu.tick(&no_keys());
    assert!(emu.test_eq_v(0x0, 0x05));
}

#[test]
fn no_skip_if_not_equal_immediate() {
    // V0 = 1 differs from the immediate 2: no skip, 0x60FF executes.
    let mut emu = System::new();
    emu.load_test(vec![0x30, 0x02, 0x60, 0xFF, 0x60, 0x05]);
    emu.load_test_v(vec![0x1]);
    emu.tick(&no_keys());
    emu.tick(&no_keys());
    assert!(emu.test_eq_v(0x0, 0xFF));
}

#[test]
fn jump_moves_execution() {
    let mut emu = System::new();
    emu.load_test(vec![0x12, 0x06, 0x60, 0xAA, 0x00, 0x00, 0x60, 0x55]);
    emu.tick(&no_keys());
    emu.tick(&no_keys());
    assert!(emu.test_eq_v(0x0, 0x55));
}

#[test]
fn call_and_return() {
    // Call 0x206, return, and resume past the call site.
    let mut emu = System::new();
    emu.load_test(vec![0x22, 0x06, 0x60, 0x77, 0x00, 0x00, 0x00, 0xEE]);
    emu.tick(&no_keys());
    emu.tick(&no_keys());
    emu.tick(&no_keys());
    assert!(emu.test_eq_v(0x0, 0x77));
}

#[test]
fn invalid_opcode_is_skipped() {
    // An unrecognized word is non-fatal: execution continues past it.
    let mut emu = System::new();
    emu.load_test(vec![0xFF, 0xFF, 0x60, 0x42]);
    emu.tick(&no_keys());
    emu.tick(&no_keys());
    assert!(emu.test_eq_v(0x0, 0x42));
}

#[test]
fn add_index_overflow_flag() {
    // index = 0xFFF and V0 = 0xFF: the sum passes 0xFFF and VF notes it.
    let mut emu = System::new();
    emu.load_test(vec![0xAF, 0xFF, 0xF0, 0x1E]);
    emu.load_test_v(vec![0xFF]);
    emu.tick(&no_keys());
    emu.tick(&no_keys());
    assert!(emu.test_eq_v(0xF, 1));
}

#[test]
fn add_index_no_overflow_flag() {
    let mut emu = System::new();
    emu.load_test(vec![0xA0, 0x05, 0xF0, 0x1E]);
    emu.load_test_v(vec![0x0A]);
    emu.tick(&no_keys());
    emu.tick(&no_keys());
    assert!(emu.test_eq_v(0xF, 0));
}

#[test]
fn key_skip_when_pressed() {
    // V1 = 0 names key 0; pressed, so the poison word is skipped.
    let mut emu = System::new();
    emu.load_test(vec![0xE1, 0x9E, 0x60, 0xFF, 0x60, 0x05]);
    let mut keys = [false; 16];
    keys[0] = true;
    emu.tick(&keys);
    emu.tick(&no_keys());
    assert!(emu.test_eq_v(0x0, 0x05));
}

#[test]
fn key_skip_not_pressed_variant() {
    // EXA1 skips when the key is up.
    let mut emu = System::new();
    emu.load_test(vec![0xE1, 0xA1, 0x60, 0xFF, 0x60, 0x05]);
    emu.tick(&no_keys());
    emu.tick(&no_keys());
    assert!(emu.test_eq_v(0x0, 0x05));
}

#[test]
fn key_wait_polls_until_pressed() {
    // FX0A re-executes until a snapshot holds a pressed key, then stores
    // its index.
    let mut emu = System::new();
    emu.load_test(vec![0xF1, 0x0A, 0x60, 0x66]);
    emu.tick(&no_keys());
    emu.tick(&no_keys());
    assert!(emu.test_eq_v(0x0, 0x0));
    let mut keys = [false; 16];
    keys[7] = true;
    emu.tick(&keys);
    assert!(emu.test_eq_v(0x1, 7));
    emu.tick(&no_keys());
    assert!(emu.test_eq_v(0x0, 0x66));
}

#[test]
fn font_sprite_index() {
    // FX29 points the index at the 5-byte glyph of V1 = 1; drawing it puts
    // glyph 1's narrow column on screen.
    let mut emu = System::new();
    emu.load_test(vec![0xF1, 0x29, 0xD0, 0x05]);
    emu.load_test_v(vec![0x0, 0x1]);
    emu.tick(&no_keys());
    emu.tick(&no_keys());
    // Glyph 1 row 0 is 0x20: only column 2 set.
    assert_eq!(emu.pixel(0, 0), 0);
    assert_eq!(emu.pixel(2, 0), 1);
}

#[test]
fn draw_done_lowers_flag() {
    let mut emu = System::new();
    emu.load_test(vec![0x00, 0xE0]);
    emu.tick(&no_keys());
    assert!(emu.should_draw());
    emu.draw_done();
    assert!(!emu.should_draw());
}

#[test]
fn tick_ready_guards_bad_programs() {
    // A return with an empty call stack is a programming error the guard
    // reports instead of executing.
    let mut emu = System::new();
    emu.load_test(vec![0x00, 0xEE]);
    assert!(!emu.tick_ready());
    let mut good = System::new();
    good.load_test(vec![0x60, 0x01]);
    assert!(good.tick_ready());
}
