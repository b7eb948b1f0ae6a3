use blog_os::vga_buffer::{
    Buffer, Color, ColorCode, ScreenChar, Writer, BUFFER_HEIGHT, BUFFER_WIDTH, SUBSTITUTE,
};

fn row_text(w: &Writer, row: usize, len: usize) -> String {
    let mut s = String::new();
    for col in 0..len {
        s.push(char::from(w.read_cell(row, col).ascii_character));
    }
    s
}

fn all_blank(w: &Writer) -> bool {
    let blank = ScreenChar { ascii_character: b' ', color_code: w.color_code() };
    (0..BUFFER_HEIGHT).all(|r| (0..BUFFER_WIDTH).all(|c| w.read_cell(r, c) == blank))
}

#[test]
fn color_code_packs_background_high() {
    assert_eq!(ColorCode::new(Color::Yellow, Color::Black).0, 0x0e);
    assert_eq!(ColorCode::new(Color::White, Color::Blue).0, 0x1f);
    assert_eq!(ColorCode::new(Color::Black, Color::White).0, 0xf0);
    assert_eq!(Color::LightCyan.value(), 11);
}

#[test]
fn new_writer_is_blank_at_column_zero() {
    let w = Writer::new(Color::Yellow, Color::Black);
    assert_eq!(w.column_position(), 0);
    assert!(all_blank(&w));
}

#[test]
fn printable_text_lands_on_bottom_row() {
    let mut w = Writer::new(Color::Yellow, Color::Black);
    let s = "Some test string that fits on a single line";
    w.write_string(s);
    assert_eq!(row_text(&w, BUFFER_HEIGHT - 1, s.len()), s);
    assert_eq!(w.column_position(), s.len());
    let cell = w.read_cell(BUFFER_HEIGHT - 1, 0);
    assert_eq!(cell.color_code, ColorCode::new(Color::Yellow, Color::Black));
}

#[test]
fn test_println_output() {
    let mut w = Writer::new(Color::Yellow, Color::Black);
    let s = "Some test string that fits on a single line";
    w.write_string(s);
    w.write_string("\n");
    for (i, c) in s.chars().enumerate() {
        let screen_char = w.read_cell(BUFFER_HEIGHT - 2, i);
        assert_eq!(char::from(screen_char.ascii_character), c);
    }
}

#[test]
fn test_println_many() {
    let mut w = Writer::new(Color::Yellow, Color::Black);
    for _ in 0..200 {
        w.write_string("test_println_many output\n");
    }
    assert_eq!(w.column_position(), 0);
    assert_eq!(row_text(&w, BUFFER_HEIGHT - 2, 24), "test_println_many output");
    assert_eq!(row_text(&w, 0, 24), "test_println_many output");
}

#[test]
fn unprintable_byte_becomes_substitute() {
    for b in [0x00u8, 0x07, 0x1f, 0x7f] {
        let mut w = Writer::new(Color::Yellow, Color::Black);
        let s = String::from_utf8(vec![b]).unwrap();
        w.write_string(&s);
        let cell = w.read_cell(BUFFER_HEIGHT - 1, 0);
        assert_eq!(cell.ascii_character, SUBSTITUTE);
        assert_ne!(cell.ascii_character, b);
    }
}

#[test]
fn multibyte_char_gives_one_substitute_per_byte() {
    let mut w = Writer::new(Color::Yellow, Color::Black);
    w.write_string("aé");
    assert_eq!(w.column_position(), 3);
    assert_eq!(w.read_cell(BUFFER_HEIGHT - 1, 0).ascii_character, b'a');
    assert_eq!(w.read_cell(BUFFER_HEIGHT - 1, 1).ascii_character, 0xfe);
    assert_eq!(w.read_cell(BUFFER_HEIGHT - 1, 2).ascii_character, 0xfe);
}

#[test]
fn write_byte_stores_raw_byte() {
    let mut w = Writer::new(Color::Yellow, Color::Black);
    w.write_byte(b'H');
    assert_eq!(w.read_cell(BUFFER_HEIGHT - 1, 0).ascii_character, b'H');
    assert_eq!(w.column_position(), 1);
}

#[test]
fn full_row_does_not_scroll() {
    let mut w = Writer::new(Color::Yellow, Color::Black);
    let s: String = (0..BUFFER_WIDTH).map(|i| char::from(b'a' + (i % 26) as u8)).collect();
    w.write_string(&s);
    assert_eq!(w.column_position(), BUFFER_WIDTH);
    assert_eq!(row_text(&w, BUFFER_HEIGHT - 1, BUFFER_WIDTH), s);
    assert_eq!(row_text(&w, BUFFER_HEIGHT - 2, BUFFER_WIDTH), " ".repeat(BUFFER_WIDTH));
}

#[test]
fn one_char_past_row_scrolls_once() {
    let mut w = Writer::new(Color::Yellow, Color::Black);
    let s: String = (0..BUFFER_WIDTH).map(|i| char::from(b'a' + (i % 26) as u8)).collect();
    w.write_string(&s);
    w.write_string("Z");
    assert_eq!(w.column_position(), 1);
    assert_eq!(row_text(&w, BUFFER_HEIGHT - 2, BUFFER_WIDTH), s);
    assert_eq!(w.read_cell(BUFFER_HEIGHT - 1, 0).ascii_character, b'Z');
    assert_eq!(row_text(&w, BUFFER_HEIGHT - 1, BUFFER_WIDTH)[1..], " ".repeat(BUFFER_WIDTH - 1));
    assert_eq!(row_text(&w, BUFFER_HEIGHT - 3, BUFFER_WIDTH), " ".repeat(BUFFER_WIDTH));
}

#[test]
fn scrolling_blank_screen_stays_blank() {
    let mut w = Writer::new(Color::Yellow, Color::Black);
    w.write_string("\n");
    assert!(all_blank(&w));
    assert_eq!(w.column_position(), 0);
}

#[test]
fn newline_at_column_zero_still_scrolls() {
    let mut w = Writer::new(Color::Yellow, Color::Black);
    w.write_string("x\n");
    assert_eq!(w.read_cell(BUFFER_HEIGHT - 2, 0).ascii_character, b'x');
    w.write_string("\n");
    assert_eq!(w.read_cell(BUFFER_HEIGHT - 3, 0).ascii_character, b'x');
    assert_eq!(w.read_cell(BUFFER_HEIGHT - 2, 0).ascii_character, b' ');
}

#[test]
fn split_writes_match_one_write() {
    let mut a = Writer::new(Color::Yellow, Color::Black);
    let mut b = Writer::new(Color::Yellow, Color::Black);
    a.write_string("first call\nsecond");
    a.write_string(" part\u{1}\nthird");
    b.write_string("first call\nsecond part\u{1}\nthird");
    assert_eq!(a.column_position(), b.column_position());
    for r in 0..BUFFER_HEIGHT {
        for c in 0..BUFFER_WIDTH {
            assert_eq!(a.read_cell(r, c), b.read_cell(r, c));
        }
    }
}

#[test]
fn colour_change_applies_to_later_cells_only() {
    let mut w = Writer::new(Color::Yellow, Color::Black);
    w.write_string("a");
    w.set_color(Color::White, Color::Red);
    w.write_string("b");
    assert_eq!(w.read_cell(BUFFER_HEIGHT - 1, 0).color_code, ColorCode(0x0e));
    assert_eq!(w.read_cell(BUFFER_HEIGHT - 1, 1).color_code, ColorCode(0x4f));
    w.write_string("\n");
    assert_eq!(w.read_cell(BUFFER_HEIGHT - 1, 5).color_code, ColorCode(0x4f));
    assert_eq!(w.read_cell(BUFFER_HEIGHT - 2, 0).color_code, ColorCode(0x0e));
}

#[test]
fn buffer_reads_back_written_cell() {
    let fill = ScreenChar { ascii_character: b'.', color_code: ColorCode(0x07) };
    let mut buf = Buffer::new(fill);
    let c = ScreenChar { ascii_character: b'Q', color_code: ColorCode(0x1e) };
    buf.write(3, 79, c);
    assert_eq!(buf.read(3, 79), c);
    assert_eq!(buf.read(4, 0), fill);
    assert_eq!(buf.read(3, 78), fill);
}
