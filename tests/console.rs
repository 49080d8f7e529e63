use unoperating_system::color::{Color, ColorCode};
use unoperating_system::console::Console;
use unoperating_system::vga_buffer::{VGABuffer, SCREEN_HEIGHT, SCREEN_WIDTH};

const ALL_COLORS: [Color; 16] = [
    Color::Black,
    Color::Blue,
    Color::Green,
    Color::Cyan,
    Color::Red,
    Color::Magenta,
    Color::Brown,
    Color::LightGray,
    Color::DarkGray,
    Color::LightBlue,
    Color::LightGreen,
    Color::LightCyan,
    Color::LightRed,
    Color::Pink,
    Color::Yellow,
    Color::White,
];

const WHITE_ON_BLACK: u8 = 0x0f;

fn row_text(console: &Console, y: usize) -> String {
    let mut text = String::new();
    for x in 0..SCREEN_WIDTH {
        text.push(console.read_cell(x, y).0 as char);
    }
    text
}

fn assert_blank(console: &Console) {
    for y in 0..SCREEN_HEIGHT {
        for x in 0..SCREEN_WIDTH {
            assert_eq!(console.read_cell(x, y), (b' ', WHITE_ON_BLACK), "cell ({}, {})", x, y);
        }
    }
}

fn printable_char(i: usize) -> char {
    (b'!' + (i % 94) as u8) as char
}

#[test]
fn color_code_round_trips_every_pair() {
    for fg in ALL_COLORS {
        for bg in ALL_COLORS {
            let code = ColorCode::new(fg, bg);
            assert_eq!(code.get_text_color(), fg);
            assert_eq!(code.get_bg_color(), bg);
        }
    }
}

#[test]
fn color_code_packs_background_high() {
    assert_eq!(ColorCode::new(Color::White, Color::Black).as_byte(), 0x0f);
    assert_eq!(ColorCode::new(Color::Red, Color::Blue).as_byte(), 0x14);
    assert_eq!(ColorCode::new(Color::Black, Color::White).as_byte(), 0xf0);
}

#[test]
fn color_from_index() {
    for (i, c) in ALL_COLORS.iter().enumerate() {
        assert_eq!(Color::from(i as u8), *c);
        assert_eq!(c.index(), i as u8);
    }
    assert_eq!(Color::from(16), Color::White);
    assert_eq!(Color::from(255), Color::White);
}

#[test]
fn new_console_is_blank() {
    let console = Console::new();
    assert_blank(&console);
    assert_eq!(console.get_column(), 0);
    assert_eq!(console.get_line(), 0);
}

#[test]
fn printable_char_stored_with_color() {
    let mut console = Console::new();
    let color = ColorCode::new(Color::Yellow, Color::Blue);
    console.write_char_colored('~', color);
    assert_eq!(console.read_cell(0, 0), (b'~', 0x1e));
    assert_eq!(console.get_column(), 1);
    console.write_char(' ');
    assert_eq!(console.read_cell(1, 0), (b' ', WHITE_ON_BLACK));
    assert_eq!(console.get_column(), 2);
    assert_eq!(console.read_cell(2, 0), (b' ', WHITE_ON_BLACK));
}

#[test]
fn unprintable_chars_become_placeholder() {
    let mut console = Console::new();
    for c in ['\t', '\u{7f}', '\u{1f}', '\u{e9}', '\u{141}', '\u{2603}', '\r'] {
        console.write_char(c);
    }
    for x in 0..7 {
        assert_eq!(console.read_cell(x, 0), (0xfe, WHITE_ON_BLACK));
    }
    assert_eq!(console.get_column(), 7);
    assert_eq!(console.get_line(), 0);
}

#[test]
fn full_row_moves_cursor_to_next_line() {
    let mut console = Console::new();
    let row: String = (0..SCREEN_WIDTH).map(printable_char).collect();
    console.write_str(&row);
    assert_eq!(console.get_column(), 0);
    assert_eq!(console.get_line(), 1);
    assert_eq!(row_text(&console, 0), row);
    assert_eq!(console.read_cell(0, 1), (b' ', WHITE_ON_BLACK));
}

#[test]
fn filling_the_grid_scrolls_once() {
    let mut console = Console::new();
    let text: String = (0..SCREEN_WIDTH * SCREEN_HEIGHT - 1).map(printable_char).collect();
    console.write_str(&text);
    assert_eq!(console.get_line(), SCREEN_HEIGHT - 1);
    assert_eq!(console.get_column(), SCREEN_WIDTH - 1);
    let rows: Vec<String> = (0..SCREEN_HEIGHT).map(|y| row_text(&console, y)).collect();
    assert_eq!(rows[0], text[..SCREEN_WIDTH]);
    assert_eq!(console.read_cell(SCREEN_WIDTH - 1, SCREEN_HEIGHT - 1), (b' ', WHITE_ON_BLACK));

    console.write_char('#');
    assert_eq!(console.get_line(), SCREEN_HEIGHT - 1);
    assert_eq!(console.get_column(), 0);
    for y in 0..SCREEN_HEIGHT - 2 {
        assert_eq!(row_text(&console, y), rows[y + 1]);
    }
    let mut moved = rows[SCREEN_HEIGHT - 1].clone();
    moved.pop();
    moved.push('#');
    assert_eq!(row_text(&console, SCREEN_HEIGHT - 2), moved);
    for x in 0..SCREEN_WIDTH {
        assert_eq!(console.read_cell(x, SCREEN_HEIGHT - 1), (b' ', WHITE_ON_BLACK));
    }

    console.write_char('x');
    assert_eq!(console.read_cell(0, SCREEN_HEIGHT - 1), (b'x', WHITE_ON_BLACK));
    assert_eq!(console.get_column(), 1);
}

#[test]
fn clear_twice_is_blank() {
    let mut console = Console::new();
    console.write_str("some text\nand more");
    console.clear();
    assert_blank(&console);
    assert_eq!((console.get_line(), console.get_column()), (0, 0));
    console.clear();
    assert_blank(&console);
    assert_eq!((console.get_line(), console.get_column()), (0, 0));
}

#[test]
fn formatted_numbers() {
    let mut console = Console::new();
    let text = format!("The numbers are {} and {}", 42, 1.0 / 3.0);
    console.write_str(&text);
    let expected = "The numbers are 42 and 0.3333333333333333";
    assert_eq!(&row_text(&console, 0)[..expected.len()], expected);
    for x in 0..expected.len() {
        assert_eq!(console.read_cell(x, 0).1, WHITE_ON_BLACK);
    }
    assert_eq!(console.read_cell(expected.len(), 0), (b' ', WHITE_ON_BLACK));
    assert_eq!(console.get_column(), expected.len());
    assert_eq!(console.get_line(), 0);
}

#[test]
fn embedded_newline_breaks_line() {
    let mut console = Console::new();
    console.write_str("AB\nCD");
    assert_eq!(console.read_cell(0, 0), (b'A', WHITE_ON_BLACK));
    assert_eq!(console.read_cell(1, 0), (b'B', WHITE_ON_BLACK));
    assert_eq!(console.read_cell(2, 0), (b' ', WHITE_ON_BLACK));
    assert_eq!(console.read_cell(0, 1), (b'C', WHITE_ON_BLACK));
    assert_eq!(console.read_cell(1, 1), (b'D', WHITE_ON_BLACK));
    assert_eq!(console.read_cell(2, 1), (b' ', WHITE_ON_BLACK));
    assert_eq!((console.get_line(), console.get_column()), (1, 2));
}

#[test]
fn colored_string() {
    let mut console = Console::new();
    let color = ColorCode::new(Color::LightGreen, Color::Red);
    console.write_str_colored("ok", color);
    assert_eq!(console.read_cell(0, 0), (b'o', 0x4a));
    assert_eq!(console.read_cell(1, 0), (b'k', 0x4a));
}

#[test]
fn new_line_on_last_row_scrolls() {
    let mut console = Console::new();
    for _ in 0..SCREEN_HEIGHT - 1 {
        console.new_line();
    }
    assert_eq!(console.get_line(), SCREEN_HEIGHT - 1);
    console.write_str("top");
    console.new_line();
    assert_eq!((console.get_line(), console.get_column()), (SCREEN_HEIGHT - 1, 0));
    assert_eq!(&row_text(&console, SCREEN_HEIGHT - 2)[..3], "top");
    assert_eq!(console.read_cell(0, SCREEN_HEIGHT - 1), (b' ', WHITE_ON_BLACK));
}

#[test]
fn console_scroll_moves_cursor_back() {
    let mut console = Console::new();
    console.write_str("\n\nabc");
    console.scroll(1);
    assert_eq!(console.read_cell(0, 1), (b'a', WHITE_ON_BLACK));
    // The cursor moves back by the distance from column 3 to the row's end.
    assert_eq!(console.get_line(), 1);
    assert_eq!(console.get_column(), 6);

    let mut fresh = Console::new();
    fresh.write_str("ab");
    fresh.scroll(1);
    assert_eq!((fresh.get_line(), fresh.get_column()), (0, 0));
}

#[test]
fn buffer_write_byte_and_bounds() {
    let mut buffer = VGABuffer::new();
    let color = ColorCode::new(Color::Cyan, Color::Black);
    buffer.write_byte(3, 2, b'Z', color);
    assert_eq!(buffer.read_cell(3, 2), (b'Z', 0x03));
    buffer.write_byte(SCREEN_WIDTH + 1, 0, b'Y', color);
    assert_eq!(buffer.read_cell(1, 1), (b'Y', 0x03));
    buffer.write_byte(SCREEN_WIDTH - 1, SCREEN_HEIGHT - 1, b'L', color);
    assert_eq!(buffer.read_cell(SCREEN_WIDTH - 1, SCREEN_HEIGHT - 1), (b'L', 0x03));
    let before: Vec<(u8, u8)> = (0..SCREEN_HEIGHT)
        .flat_map(|y| (0..SCREEN_WIDTH).map(move |x| (x, y)))
        .map(|(x, y)| buffer.read_cell(x, y))
        .collect();
    buffer.write_byte(0, SCREEN_HEIGHT, b'!', color);
    buffer.write_byte(SCREEN_WIDTH, SCREEN_HEIGHT - 1, b'!', color);
    buffer.write_byte(usize::MAX, usize::MAX, b'!', color);
    buffer.write_byte(usize::MAX, 0, b'!', color);
    let after: Vec<(u8, u8)> = (0..SCREEN_HEIGHT)
        .flat_map(|y| (0..SCREEN_WIDTH).map(move |x| (x, y)))
        .map(|(x, y)| buffer.read_cell(x, y))
        .collect();
    assert_eq!(before, after);
}

#[test]
fn buffer_scroll_shifts_rows() {
    let mut buffer = VGABuffer::new();
    let color = ColorCode::new(Color::Pink, Color::Green);
    for y in 0..SCREEN_HEIGHT {
        buffer.write_byte(0, y, b'a' + y as u8, color);
    }
    buffer.scroll(0);
    assert_eq!(buffer.read_cell(0, 0), (b'a', 0x2d));
    buffer.scroll(2);
    for y in 0..SCREEN_HEIGHT - 2 {
        assert_eq!(buffer.read_cell(0, y), (b'a' + (y + 2) as u8, 0x2d));
    }
    for y in SCREEN_HEIGHT - 2..SCREEN_HEIGHT {
        assert_eq!(buffer.read_cell(0, y), (b' ', WHITE_ON_BLACK));
    }
    buffer.scroll(SCREEN_HEIGHT + 5);
    for y in 0..SCREEN_HEIGHT {
        assert_eq!(buffer.read_cell(0, y), (b' ', WHITE_ON_BLACK));
    }
    buffer.scroll(usize::MAX);
    buffer.clear();
    assert_eq!(buffer.read_cell(7, 7), (b' ', WHITE_ON_BLACK));
}
