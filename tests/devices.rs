use hexium::audio::{tone_divisor, Notes};
use hexium::graphics::{graphics, SCREEN_WIDTH};
use hexium::idt::{pic_init_sequence, pit_init_sequence, IdtEntry, IdtPointer, PIT_DIVISOR};
use hexium::keyboard::Keyboard;
use hexium::vga_colors::{color_code, Color};
use hexium::writer::{Writer, SCREEN_BYTES, UNPRINTABLE, VGA_HEIGHT, VGA_WIDTH};

#[test]
fn key_characters() {
    assert_eq!(Keyboard::scancode_to_char(0x1E, false), Some('a'));
    assert_eq!(Keyboard::scancode_to_char(0x1E, true), Some('A'));
    assert_eq!(Keyboard::scancode_to_char(0x02, true), Some('!'));
    assert_eq!(Keyboard::scancode_to_char(0x0B, false), Some('0'));
    assert_eq!(Keyboard::scancode_to_char(0x39, true), Some(' '));
    assert_eq!(Keyboard::scancode_to_char(0x2B, false), Some('\\'));
    assert_eq!(Keyboard::scancode_to_char(0x35, true), Some('?'));
    assert_eq!(Keyboard::scancode_to_char(0x1C, false), None);
    assert_eq!(Keyboard::scancode_to_char(0x9E, false), None);
}

#[test]
fn attribute_bytes() {
    assert_eq!(color_code(Color::White, Color::Black), 0x0F);
    assert_eq!(color_code(Color::Black, Color::LightGray), 0x70);
    assert_eq!(color_code(Color::LightGreen, Color::Black), 0x0A);
    assert_eq!(color_code(Color::Yellow, Color::Blue), 0x1E);
}

#[test]
fn gate_points_at_handler() {
    let mut e = IdtEntry::empty();
    e.set_handler(0x1234_5678);
    assert_eq!(e.offset_low, 0x5678);
    assert_eq!(e.offset_high, 0x1234);
    assert_eq!(e.selector, 0x08);
    assert_eq!(e.zero, 0);
    assert_eq!(e.type_attr, 0x8E);
    let p = IdtPointer::for_table(0x1000);
    assert_eq!(p.limit, 2047);
    assert_eq!(p.base, 0x1000);
}

#[test]
fn controller_sequences() {
    let pic = pic_init_sequence();
    assert_eq!(pic.len(), 10);
    assert_eq!(pic[2], (0x21, 0x20));
    assert_eq!(pic[3], (0xA1, 0x28));
    assert_eq!(pic[8], (0x21, 0xFC));
    assert_eq!(pic[9], (0xA1, 0xFF));
    let pit = pit_init_sequence(PIT_DIVISOR);
    assert_eq!(pit, vec![(0x43, 0x36), (0x40, 0x9C), (0x40, 0x2E)]);
}

#[test]
fn tone_divisors() {
    assert_eq!(tone_divisor(0), None);
    assert_eq!(tone_divisor(Notes::A4), Some(2711));
    assert_eq!(tone_divisor(Notes::C4), Some(4554));
    assert_eq!(tone_divisor(10), Some(53782));
}

#[test]
fn pixel_writes() {
    let mut g = graphics::new();
    g.draw_pixel(3, 2, 7);
    assert_eq!(g.pixels()[2 * SCREEN_WIDTH + 3], 7);
    g.draw_pixel(SCREEN_WIDTH, 0, 9);
    g.draw_pixel(0, 200, 9);
    assert!(g.pixels().iter().filter(|&&p| p == 9).count() == 0);
    g.clear_screen(4);
    assert!(g.pixels().iter().all(|&p| p == 4));
}

#[test]
fn glyph_drawing() {
    let mut g = graphics::new();
    let glyph = [0x80, 0x01, 0, 0, 0, 0, 0, 0xFF];
    g.draw_char(glyph, 10, 20, 3);
    let px = g.pixels();
    assert_eq!(px[20 * SCREEN_WIDTH + 10], 3);
    assert_eq!(px[20 * SCREEN_WIDTH + 11], 0);
    assert_eq!(px[21 * SCREEN_WIDTH + 17], 3);
    assert_eq!(px[21 * SCREEN_WIDTH + 16], 0);
    assert_eq!(px.iter().filter(|&&p| p == 3).count(), 10);
    g.draw_char([0xFF; 8], SCREEN_WIDTH - 2, 199, 5);
    assert_eq!(g.pixels().iter().filter(|&&p| p == 5).count(), 2);
    g.draw_char([0xFF; 8], SCREEN_WIDTH, 0, 6);
    g.draw_char([0xFF; 8], 0, 200, 6);
    g.draw_char([0xFF; 8], usize::MAX, usize::MAX, 6);
    assert_eq!(g.pixels().iter().filter(|&&p| p == 6).count(), 0);
}

fn row_text(w: &Writer, row: usize) -> Vec<u8> {
    let cells = w.cells();
    (0..VGA_WIDTH).map(|c| cells[(row * VGA_WIDTH + c) * 2]).collect()
}

#[test]
fn writer_basics() {
    let mut w = Writer::new(color_code(Color::White, Color::Black));
    assert_eq!(w.cells().len(), SCREEN_BYTES);
    w.write_str("hi\n");
    assert_eq!(&row_text(&w, 0)[..3], b"hi ");
    assert_eq!(w.cells()[1], 0x0F);
    assert_eq!((w.get_col(), w.get_row()), (0, 1));
    w.set_color(Color::Red, Color::Black);
    w.write_bytes(&[0x01, b'x']);
    assert_eq!(w.cells()[(VGA_WIDTH) * 2], UNPRINTABLE);
    assert_eq!(w.cells()[(VGA_WIDTH) * 2 + 1], 0x04);
    assert_eq!(w.get_col(), 2);
    w.set_position(5, 3);
    assert_eq!((w.get_col(), w.get_row()), (5, 3));
}

#[test]
fn writer_wraps_and_scrolls() {
    let mut w = Writer::new(0x07);
    let line = vec![b'a'; VGA_WIDTH];
    w.write_bytes(&line);
    assert_eq!((w.get_col(), w.get_row()), (VGA_WIDTH, 0));
    w.write_bytes(b"b");
    assert_eq!((w.get_col(), w.get_row()), (1, 1));
    w.set_position(0, VGA_HEIGHT - 1);
    w.write_str("last");
    w.write_str("\n");
    assert_eq!(w.get_row(), VGA_HEIGHT - 1);
    assert_eq!(&row_text(&w, VGA_HEIGHT - 2)[..4], b"last");
    assert_eq!(row_text(&w, VGA_HEIGHT - 1), vec![b' '; VGA_WIDTH]);
    assert_eq!(&row_text(&w, 0)[..1], b"b");
    w.clear();
    assert_eq!((w.get_col(), w.get_row()), (0, 0));
    assert_eq!(row_text(&w, 0), vec![b' '; VGA_WIDTH]);
}
