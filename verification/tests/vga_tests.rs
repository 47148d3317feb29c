use oskernel::kernel::vga::{
    erase_last_character, text_end_column, Buffer, Color, ColorCode, ScreenChar, Writer,
};

fn blank_writer() -> Writer {
    let blank = ScreenChar { ascii_character: b' ', color_code: ColorCode(0x0e) };
    Writer::new(Buffer::filled(blank))
}

fn row_text(w: &Writer, row: usize, len: usize) -> Vec<u8> {
    (0..len).map(|c| w.char_at(row, c).ascii_character).collect()
}

const CURSOR: ScreenChar = ScreenChar { ascii_character: b' ', color_code: ColorCode(0xee) };

#[test]
fn color_code_packs_background_high_foreground_low() {
    assert_eq!(ColorCode::new(Color::Yellow, Color::Black), ColorCode(0x0e));
    assert_eq!(ColorCode::new(Color::White, Color::Blue), ColorCode(0x1f));
    assert_eq!(ColorCode::new(Color::Yellow, Color::Yellow), ColorCode(0xee));
    assert_eq!(Color::Pink.value(), 13);
}

#[test]
fn new_writer_starts_at_column_zero_yellow_on_black() {
    let w = blank_writer();
    assert_eq!(w.column_position(), 0);
    assert_eq!(w.color_code(), ColorCode(0x0e));
}

#[test]
fn write_string_puts_text_on_bottom_row_and_draws_cursor() {
    let mut w = blank_writer();
    w.write_string("hi");
    assert_eq!(w.char_at(24, 0), ScreenChar { ascii_character: b'h', color_code: ColorCode(0x0e) });
    assert_eq!(w.char_at(24, 1), ScreenChar { ascii_character: b'i', color_code: ColorCode(0x0e) });
    assert_eq!(w.char_at(24, 2), CURSOR);
    assert_eq!(w.column_position(), 2);
    assert_eq!(w.char_at(23, 0).ascii_character, b' ');
}

#[test]
fn write_string_shows_non_ascii_bytes_as_blocks() {
    let mut w = blank_writer();
    w.write_string("\u{e9}\t");
    assert_eq!(row_text(&w, 24, 3), vec![0xfe, 0xfe, 0xfe]);
    assert_eq!(w.column_position(), 3);
}

#[test]
fn newline_scrolls_up_and_clears_bottom_row() {
    let mut w = blank_writer();
    w.write_string("ab\ncd");
    assert_eq!(row_text(&w, 23, 3), b"ab ".to_vec());
    assert_eq!(w.char_at(23, 2), ScreenChar { ascii_character: b' ', color_code: ColorCode(0x0e) });
    assert_eq!(row_text(&w, 24, 2), b"cd".to_vec());
    assert_eq!(w.char_at(24, 2), CURSOR);
    assert_eq!(w.column_position(), 2);
}

#[test]
fn newline_drops_the_top_row() {
    let mut w = blank_writer();
    w.write_string("top");
    for _ in 0..25 {
        w.write_byte(b'\n');
    }
    for row in 0..25 {
        assert_eq!(row_text(&w, row, 3), b"   ".to_vec());
    }
    assert_eq!(w.column_position(), 0);
}

#[test]
fn erase_last_char_moves_cursor_back() {
    let mut w = blank_writer();
    w.write_string("abc");
    w.erase_last_char(2);
    assert_eq!(w.column_position(), 1);
    assert_eq!(w.char_at(24, 0).ascii_character, b'a');
    assert_eq!(w.char_at(24, 1), CURSOR);
    // the cells between the new cursor and the old one keep their text
    assert_eq!(w.char_at(24, 2).ascii_character, b'c');
    assert_eq!(w.char_at(24, 3), ScreenChar { ascii_character: b' ', color_code: ColorCode(0x0e) });
}

#[test]
fn erase_last_character_stops_at_column_zero() {
    let mut w = blank_writer();
    w.write_string("ab");
    erase_last_character(&mut w, 10);
    assert_eq!(w.column_position(), 0);
    assert_eq!(w.char_at(24, 0), CURSOR);
}

#[test]
fn fits_allows_seventy_nine_characters_per_line() {
    let w = blank_writer();
    let line79 = "x".repeat(79);
    let line80 = "x".repeat(80);
    assert!(w.fits(&line79));
    assert!(!w.fits(&line80));
    assert!(w.fits(&format!("{}\n{}", line79, line79)));
    assert_eq!(text_end_column(0, "abc"), Some(3));
    assert_eq!(text_end_column(5, "ab\nc"), Some(1));
    assert_eq!(text_end_column(78, "ab"), None);
    let mut w = blank_writer();
    w.write_string(&line79);
    assert_eq!(w.column_position(), 79);
    assert_eq!(w.char_at(24, 79), CURSOR);
}

#[test]
fn buffer_new_keeps_given_cells() {
    let mut cells = vec![ScreenChar { ascii_character: b'.', color_code: ColorCode(0x07) }; 2000];
    cells[1999] = ScreenChar { ascii_character: b'!', color_code: ColorCode(0x07) };
    let w = Writer::new(Buffer::new(cells));
    assert_eq!(w.char_at(24, 79).ascii_character, b'!');
    assert_eq!(w.char_at(0, 0).ascii_character, b'.');
}

#[test]
fn printing_in_parts_equals_printing_at_once() {
    let mut a = blank_writer();
    a.write_string("ab");
    a.write_string("c\nd");
    let mut b = blank_writer();
    b.write_string("abc\nd");
    for row in 0..25 {
        for col in 0..80 {
            assert_eq!(a.char_at(row, col), b.char_at(row, col));
        }
    }
    assert_eq!(a.column_position(), b.column_position());
}
