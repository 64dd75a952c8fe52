use boot_core::vga_buffer::write_direct;
use boot_core::vga_buffer::write_greeting;
use boot_core::vga_buffer::GREETING_COLOR;
use boot_core::vga_buffer::PLACEHOLDER;
use boot_core::TextConsole;
use boot_core::HEIGHT;
use boot_core::WIDTH;

#[test]
fn printable_row_fill() {
    let mut console = TextConsole::new(0x0f);
    console.write_string(b"Hello");
    let expected = b"Hello";
    for j in 0..expected.len() {
        let cell = console.cell_at(HEIGHT - 1, j);
        assert_eq!(cell.ascii_character, expected[j]);
        assert_eq!(cell.color_code, 0x0f);
    }
    assert_eq!(console.column_position, 5);
    let untouched = console.cell_at(HEIGHT - 1, 5);
    assert_eq!(untouched.ascii_character, b' ');
}

#[test]
fn full_width_row_fits_without_scroll() {
    let mut console = TextConsole::new(0x07);
    let row = vec![b'A'; WIDTH];
    console.write_string(&row);
    assert_eq!(console.column_position, WIDTH);
    for c in 0..WIDTH {
        assert_eq!(console.cell_at(HEIGHT - 1, c).ascii_character, b'A');
    }
    for c in 0..WIDTH {
        assert_eq!(console.cell_at(HEIGHT - 2, c).ascii_character, b' ');
    }
}

#[test]
fn one_byte_past_width_scrolls_once() {
    let mut console = TextConsole::new(0x07);
    let mut bytes = vec![b'A'; WIDTH];
    bytes.push(b'B');
    console.write_string(&bytes);
    // The row of A's moved up one row; the extra byte starts the fresh
    // bottom row.
    for c in 0..WIDTH {
        assert_eq!(console.cell_at(HEIGHT - 2, c).ascii_character, b'A');
    }
    assert_eq!(console.cell_at(HEIGHT - 1, 0).ascii_character, b'B');
    assert_eq!(console.cell_at(HEIGHT - 1, 1).ascii_character, b' ');
    assert_eq!(console.column_position, 1);
}

#[test]
fn unprintable_byte_becomes_placeholder() {
    let mut console = TextConsole::new(0x2a);
    console.write_string(&[0x01, 0x7f, 0x1f]);
    for c in 0..3 {
        let cell = console.cell_at(HEIGHT - 1, c);
        assert_eq!(cell.ascii_character, PLACEHOLDER);
        assert_eq!(cell.color_code, 0x2a);
    }
    assert_ne!(PLACEHOLDER, b' ');
}

#[test]
fn line_feed_scrolls_and_resets_column() {
    let mut console = TextConsole::new(0x07);
    console.write_string(b"ab\ncd");
    assert_eq!(console.cell_at(HEIGHT - 2, 0).ascii_character, b'a');
    assert_eq!(console.cell_at(HEIGHT - 2, 1).ascii_character, b'b');
    assert_eq!(console.cell_at(HEIGHT - 1, 0).ascii_character, b'c');
    assert_eq!(console.cell_at(HEIGHT - 1, 1).ascii_character, b'd');
    assert_eq!(console.column_position, 2);
}

#[test]
fn write_line_appends_line_feed() {
    let mut console = TextConsole::new(0x07);
    console.write_line(b"hi");
    assert_eq!(console.cell_at(HEIGHT - 2, 0).ascii_character, b'h');
    assert_eq!(console.cell_at(HEIGHT - 2, 1).ascii_character, b'i');
    assert_eq!(console.column_position, 0);
}

#[test]
fn new_line_on_blank_screen_stays_blank() {
    let mut console = TextConsole::new(0x09);
    console.new_line();
    for r in 0..HEIGHT {
        for c in 0..WIDTH {
            let cell = console.cell_at(r, c);
            assert_eq!(cell.ascii_character, b' ');
            assert_eq!(cell.color_code, 0x09);
        }
    }
    assert_eq!(console.column_position, 0);
}

#[test]
fn top_row_is_discarded_on_scroll() {
    let mut console = TextConsole::new(0x07);
    // Scroll a marked row all the way off the top; nothing of it may
    // come back around.
    console.write_string(b"marker");
    for _ in 0..HEIGHT {
        console.new_line();
    }
    for r in 0..HEIGHT {
        for c in 0..WIDTH {
            assert_eq!(console.cell_at(r, c).ascii_character, b' ');
        }
    }
}

#[test]
fn clear_row_blanks_only_that_row() {
    let mut console = TextConsole::new(0x07);
    console.write_string(b"ab\ncd");
    console.clear_row(HEIGHT - 2);
    assert_eq!(console.cell_at(HEIGHT - 2, 0).ascii_character, b' ');
    assert_eq!(console.cell_at(HEIGHT - 1, 0).ascii_character, b'c');
    assert_eq!(console.cell_at(HEIGHT - 1, 1).ascii_character, b'd');
}

#[test]
fn direct_greeting_lands_in_row_zero() {
    let mut buffer = vec![0u8; 2 * HEIGHT * WIDTH];
    write_greeting(&mut buffer);
    let text = b"Hello World!";
    for j in 0..12 {
        assert_eq!(buffer[2 * j], text[j]);
        assert_eq!(buffer[2 * j + 1], 0x0b);
    }
    assert_eq!(GREETING_COLOR, 0x0b);
    for k in 24..buffer.len() {
        assert_eq!(buffer[k], 0);
    }
}

#[test]
fn direct_write_interleaves_color() {
    let mut buffer = vec![0xaau8; 64];
    write_direct(&mut buffer, b"xyz", 0x1c);
    assert_eq!(&buffer[..6], &[b'x', 0x1c, b'y', 0x1c, b'z', 0x1c]);
    for k in 6..64 {
        assert_eq!(buffer[k], 0xaa);
    }
}
