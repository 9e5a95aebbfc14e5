// The memory store and the framebuffer on their own: the resident font
// table, big-endian word fetch, byte stores, and the XOR blit.

use chip8::Memory;
use chip8::Video;

#[test]
fn fresh_memory_holds_font_then_zeros() {
    let mem = Memory::new();
    // Glyph 0 starts with 0xF0 and glyph F ends with 0x80.
    assert_eq!(mem.get_byte(0x000), 0xF0);
    assert_eq!(mem.get_byte(0x04F), 0x80);
    // Glyph 1's five rows.
    assert_eq!(mem.get_byte(0x005), 0x20);
    assert_eq!(mem.get_byte(0x006), 0x60);
    assert_eq!(mem.get_byte(0x009), 0x70);
    // Past the font everything is zero.
    assert_eq!(mem.get_byte(0x050), 0);
    assert_eq!(mem.get_byte(0xFFF), 0);
}

#[test]
fn load_places_image_at_program_start() {
    let mut mem = Memory::new();
    mem.load(vec![0xAB, 0xCD, 0xEF]);
    assert_eq!(mem.get_byte(0x200), 0xAB);
    assert_eq!(mem.get_byte(0x201), 0xCD);
    assert_eq!(mem.get_byte(0x202), 0xEF);
    assert_eq!(mem.get_byte(0x203), 0);
    // The font below stays untouched.
    assert_eq!(mem.get_byte(0x000), 0xF0);
}

#[test]
fn instruction_word_is_big_endian() {
    let mut mem = Memory::new();
    mem.load(vec![0xAB, 0xCD]);
    assert_eq!(mem.get_instruction(0x200), 0xABCD);
}

#[test]
fn set_writes_one_byte() {
    let mut mem = Memory::new();
    mem.set(0x300, 42);
    assert_eq!(mem.get_byte(0x300), 42);
    assert_eq!(mem.get_byte(0x2FF), 0);
    assert_eq!(mem.get_byte(0x301), 0);
}

#[test]
fn draw_sprite_blits_and_reports_collision() {
    let mem = Memory::new();
    let mut video = Video::new();
    // Glyph 0 at address 0: top row 0xF0 sets columns 0..=3.
    let collided = video.draw_sprite(0, 0, 5, 0, &mem);
    assert!(!collided);
    assert_eq!(video.pixel(0, 0), 1);
    assert_eq!(video.pixel(3, 0), 1);
    assert_eq!(video.pixel(4, 0), 0);
    // Row 1 holds 0x90: only the outer columns of the glyph.
    assert_eq!(video.pixel(0, 1), 1);
    assert_eq!(video.pixel(1, 1), 0);
    assert_eq!(video.pixel(3, 1), 1);
    // The same sprite again collides and erases itself.
    let collided = video.draw_sprite(0, 0, 5, 0, &mem);
    assert!(collided);
    for x in 0..8 {
        for y in 0..6 {
            assert_eq!(video.pixel(x, y), 0);
        }
    }
}

#[test]
fn clear_erases_the_grid() {
    let mem = Memory::new();
    let mut video = Video::new();
    video.draw_sprite(10, 10, 5, 0, &mem);
    assert_eq!(video.pixel(10, 10), 1);
    video.clear();
    for x in 0..64 {
        for y in 0..32 {
            assert_eq!(video.pixel(x, y), 0);
        }
    }
}
