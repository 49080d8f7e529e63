//! The sixteen-color palette and the packed one-byte color attribute.

use vstd::prelude::*;

verus! {

/// One of the sixteen palette entries, listed in index order (0 to 15).
#[derive(Debug, Clone, Copy, PartialEq, Eq, Structural)]
pub enum Color {
    Black,
    Blue,
    Green,
    Cyan,
    Red,
    Magenta,
    Brown,
    LightGray,
    DarkGray,
    LightBlue,
    LightGreen,
    LightCyan,
    LightRed,
    Pink,
    Yellow,
    White,
}

/// The 4-bit palette index of a color.
pub open spec fn color_index(c: Color) -> u8 {
    match c {
        Color::Black => 0,
        Color::Blue => 1,
        Color::Green => 2,
        Color::Cyan => 3,
        Color::Red => 4,
        Color::Magenta => 5,
        Color::Brown => 6,
        Color::LightGray => 7,
        Color::DarkGray => 8,
        Color::LightBlue => 9,
        Color::LightGreen => 10,
        Color::LightCyan => 11,
        Color::LightRed => 12,
        Color::Pink => 13,
        Color::Yellow => 14,
        Color::White => 15,
    }
}

/// The color with palette index `i`; every index above 15 falls back to white.
pub open spec fn color_of(i: u8) -> Color {
    if i == 0 {
        Color::Black
    } else if i == 1 {
        Color::Blue
    } else if i == 2 {
        Color::Green
    } else if i == 3 {
        Color::Cyan
    } else if i == 4 {
        Color::Red
    } else if i == 5 {
        Color::Magenta
    } else if i == 6 {
        Color::Brown
    } else if i == 7 {
        Color::LightGray
    } else if i == 8 {
        Color::DarkGray
    } else if i == 9 {
        Color::LightBlue
    } else if i == 10 {
        Color::LightGreen
    } else if i == 11 {
        Color::LightCyan
    } else if i == 12 {
        Color::LightRed
    } else if i == 13 {
        Color::Pink
    } else if i == 14 {
        Color::Yellow
    } else {
        Color::White
    }
}

/// Index and color name each other: `color_of` undoes `color_index`.
pub proof fn lemma_color_index_round_trip(c: Color)
    ensures
        color_index(c) < 16,
        color_of(color_index(c)) == c,
{
}

impl Color {
    /// The palette index of this color.
    pub fn index(self) -> (r: u8)
        ensures
            r == color_index(self),
            r < 16,
    {
        match self {
            Color::Black => 0,
            Color::Blue => 1,
            Color::Green => 2,
            Color::Cyan => 3,
            Color::Red => 4,
            Color::Magenta => 5,
            Color::Brown => 6,
            Color::LightGray => 7,
            Color::DarkGray => 8,
            Color::LightBlue => 9,
            Color::LightGreen => 10,
            Color::LightCyan => 11,
            Color::LightRed => 12,
            Color::Pink => 13,
            Color::Yellow => 14,
            Color::White => 15,
        }
    }
}

impl From<u8> for Color {
    /// The color with the given palette index; indices above 15 give white.
    fn from(index: u8) -> (r: Color) {
        match index {
            0 => Color::Black,
            1 => Color::Blue,
            2 => Color::Green,
            3 => Color::Cyan,
            4 => Color::Red,
            5 => Color::Magenta,
            6 => Color::Brown,
            7 => Color::LightGray,
            8 => Color::DarkGray,
            9 => Color::LightBlue,
            10 => Color::LightGreen,
            11 => Color::LightCyan,
            12 => Color::LightRed,
            13 => Color::Pink,
            14 => Color::Yellow,
            15 => Color::White,
            _ => Color::White,
        }
    }
}

impl vstd::std_specs::convert::FromSpecImpl<u8> for Color {
    open spec fn obeys_from_spec() -> bool {
        true
    }

    open spec fn from_spec(v: u8) -> Color {
        color_of(v)
    }
}

/// A packed attribute byte: background index in the high nibble, text
/// (foreground) index in the low nibble.
#[derive(Debug, Clone, Copy, PartialEq, Eq, Structural)]
pub struct ColorCode {
    value: u8,
}

/// The attribute byte that packs text color `fg` over background `bg`.
pub open spec fn pack(fg: Color, bg: Color) -> u8 {
    (color_index(bg) * 16 + color_index(fg)) as u8
}

impl ColorCode {
    /// The packed byte.
    pub closed spec fn byte(self) -> u8 {
        self.value
    }

    /// The text color held in the low nibble.
    pub open spec fn text(self) -> Color {
        color_of(self.byte() % 16)
    }

    /// The background color held in the high nibble.
    pub open spec fn background(self) -> Color {
        color_of(self.byte() / 16)
    }

    /// Packs a text color and a background color into one attribute byte.
    pub fn new(text_color: Color, bg_color: Color) -> (r: ColorCode)
        ensures
            r.byte() == pack(text_color, bg_color),
    {
        let fg = text_color.index();
        let bg = bg_color.index();
        let value: u8 = (bg << 4u8) | fg;
        assert(value == bg * 16 + fg) by (bit_vector)
            requires
                value == (bg << 4u8) | fg,
                fg < 16,
                bg < 16,
        ;
        ColorCode { value }
    }

    /// The attribute byte itself, as the display hardware reads it.
    pub fn as_byte(&self) -> (r: u8)
        ensures
            r == self.byte(),
    {
        self.value
    }

    /// The text color: the low nibble, read back as a color.
    pub fn get_text_color(&self) -> (r: Color)
        ensures
            r == self.text(),
    {
        let v = self.value;
        let low: u8 = (v << 4u8) >> 4u8;
        assert(low == v % 16) by (bit_vector)
            requires
                low == (v << 4u8) >> 4u8,
        ;
        Color::from(low)
    }

    /// The background color: the high nibble, read back as a color.
    pub fn get_bg_color(&self) -> (r: Color)
        ensures
            r == self.background(),
    {
        let v = self.value;
        let high: u8 = v >> 4u8;
        assert(high == v / 16) by (bit_vector)
            requires
                high == v >> 4u8,
        ;
        Color::from(high)
    }
}

/// Packing two colors and unpacking the byte gives both colors back, for
/// every one of the 16 × 16 combinations.
pub proof fn lemma_color_code_round_trip(code: ColorCode, text_color: Color, bg_color: Color)
    requires
        code.byte() == pack(text_color, bg_color),
    ensures
        code.text() == text_color,
        code.background() == bg_color,
{
    lemma_color_index_round_trip(text_color);
    lemma_color_index_round_trip(bg_color);
}

} // verus!
