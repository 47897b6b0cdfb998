//! Bus-level behaviour: word reads, address masking, key table, and the
//! XOR sprite compositor.

use chip8::font::get_fonts;
use chip8::interconnect::Interconnect;

fn blank_bus() -> Interconnect {
    Interconnect::new(Vec::new())
}

fn bus_with(rom: Vec<u8>) -> Interconnect {
    Interconnect::new(rom)
}

fn snapshot(ic: &Interconnect) -> Vec<bool> {
    let mut v = Vec::new();
    for row in 0..32 {
        for col in 0..64 {
            v.push(ic.pixel(col, row));
        }
    }
    v
}

#[test]
fn font_table_loaded_at_zero() {
    let fonts = get_fonts();
    assert_eq!(fonts.len(), 80);
    let ic = blank_bus();
    for a in 0..80 {
        assert_eq!(ic.get_from_addr(a), fonts[a]);
    }
    // glyph 0
    assert_eq!(&fonts[0..5], &[0xF0, 0x90, 0x90, 0x90, 0xF0]);
    // glyph F
    assert_eq!(&fonts[75..80], &[0xF0, 0x80, 0xF0, 0x80, 0x80]);
}

#[test]
fn program_loaded_at_512() {
    let ic = bus_with(vec![0xAA, 0xBB, 0xCC]);
    assert_eq!(ic.get_from_addr(511), 0);
    assert_eq!(ic.get_from_addr(512), 0xAA);
    assert_eq!(ic.get_from_addr(513), 0xBB);
    assert_eq!(ic.get_from_addr(514), 0xCC);
    assert_eq!(ic.get_from_addr(515), 0);
}

#[test]
fn word_read_is_big_endian() {
    let ic = bus_with(vec![0x12, 0x34]);
    assert_eq!(ic.read_word(512), 0x1234);
}

#[test]
fn word_read_at_odd_address() {
    let ic = bus_with(vec![0x12, 0x34, 0x56]);
    assert_eq!(ic.read_word(513), 0x3456);
    assert_eq!(ic.read_word(514), 0x5600);
}

#[test]
fn word_read_wraps_at_top_of_memory() {
    let ic = blank_bus();
    // the second byte comes from address 0, which holds the first font byte
    assert_eq!(ic.read_word(4095), 0x00F0);
}

#[test]
fn word_read_masks_high_addresses() {
    let ic = bus_with(vec![0x12, 0x34]);
    assert_eq!(ic.read_word(4096 + 512), 0x1234);
}

#[test]
fn byte_access_masks_addresses() {
    let mut ic = blank_bus();
    ic.write_to_addr(5000, 9);
    assert_eq!(ic.get_from_addr(5000 - 4096), 9);
    assert_eq!(ic.get_from_addr(5000), 9);
}

#[test]
fn key_table_masks_key_values() {
    let mut ic = blank_bus();
    assert!(!ic.is_key_pressed(4));
    ic.set_key(20, true);
    assert!(ic.is_key_pressed(4));
    assert!(ic.is_key_pressed(20));
    ic.set_key(4, false);
    assert!(!ic.is_key_pressed(4));
}

#[test]
fn draw_lights_pixels_and_reports_no_collision_on_dark_screen() {
    let mut ic = bus_with(vec![0xF0, 0x90]);
    let collision = ic.display_bytes(2, 512, 0, 0);
    assert!(!collision);
    // row 0: 1111 0000
    for col in 0..4 {
        assert!(ic.pixel(col, 0));
    }
    for col in 4..8 {
        assert!(!ic.pixel(col, 0));
    }
    // row 1: 1001 0000
    assert!(ic.pixel(0, 1));
    assert!(!ic.pixel(1, 1));
    assert!(!ic.pixel(2, 1));
    assert!(ic.pixel(3, 1));
}

#[test]
fn drawing_twice_restores_framebuffer_and_collides() {
    let rom = vec![0x3C, 0x42, 0x81, 0x81, 0x42, 0x3C];
    let mut ic = bus_with(rom);
    let before = snapshot(&ic);
    let first = ic.display_bytes(6, 512, 10, 5);
    assert!(!first);
    let lit = snapshot(&ic);
    assert_ne!(before, lit);
    let second = ic.display_bytes(6, 512, 10, 5);
    assert!(second);
    assert_eq!(snapshot(&ic), before);
}

#[test]
fn partial_overlap_collides_and_xors() {
    let mut ic = bus_with(vec![0xF0, 0x0F]);
    // light columns 0..4 of row 0 with the first byte
    assert!(!ic.display_bytes(1, 512, 0, 0));
    // 0x0F at the same place: no overlap with lit pixels
    assert!(!ic.display_bytes(1, 513, 0, 0));
    for col in 0..8 {
        assert!(ic.pixel(col, 0));
    }
    // 0xF0 again: full overlap on columns 0..4, erased
    assert!(ic.display_bytes(1, 512, 0, 0));
    for col in 0..4 {
        assert!(!ic.pixel(col, 0));
    }
    for col in 4..8 {
        assert!(ic.pixel(col, 0));
    }
}

#[test]
fn sprite_wraps_at_right_edge() {
    let mut ic = bus_with(vec![0xFF]);
    ic.display_bytes(1, 512, 60, 0);
    for col in [60, 61, 62, 63, 0, 1, 2, 3] {
        assert!(ic.pixel(col, 0), "column {} should be lit", col);
    }
    for col in 4..60 {
        assert!(!ic.pixel(col, 0));
    }
}

#[test]
fn sprite_wraps_at_bottom_edge() {
    let mut ic = bus_with(vec![0x80, 0x80, 0x80, 0x80]);
    ic.display_bytes(4, 512, 0, 30);
    for row in [30, 31, 0, 1] {
        assert!(ic.pixel(0, row), "row {} should be lit", row);
    }
    for row in 2..30 {
        assert!(!ic.pixel(0, row));
    }
}

#[test]
fn draw_coordinates_reduce_modulo_screen() {
    let mut a = bus_with(vec![0xFF]);
    let mut b = bus_with(vec![0xFF]);
    a.display_bytes(1, 512, 60, 7);
    b.display_bytes(1, 512, 60 + 64, 7 + 32);
    assert_eq!(snapshot(&a), snapshot(&b));
}

#[test]
fn sprite_source_address_masks_into_memory() {
    // source 4096 + 0 masks to address 0: the first font byte, 0xF0
    let mut ic = blank_bus();
    ic.display_bytes(1, 4096, 0, 0);
    for col in 0..4 {
        assert!(ic.pixel(col, 0));
    }
    for col in 4..8 {
        assert!(!ic.pixel(col, 0));
    }
}

#[test]
fn clear_display_darkens_everything() {
    let mut ic = bus_with(vec![0xFF, 0xFF]);
    ic.display_bytes(2, 512, 3, 4);
    ic.clear_display();
    assert_eq!(snapshot(&ic), vec![false; 2048]);
}

#[test]
fn halt_flag_round_trip() {
    let mut ic = blank_bus();
    assert!(!ic.is_halted());
    ic.set_halt(true);
    assert!(ic.is_halted());
    assert!(ic.halt);
}
