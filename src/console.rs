//! The console: a linear cursor over the grid, with line wrapping, explicit
//! line breaks and scrolling once output runs past the last row.

use vstd::prelude::*;
use crate::color::{Color, ColorCode, pack};
use crate::vga_buffer::{
    VGABuffer, SCREEN_WIDTH, SCREEN_HEIGHT, BUFFER_LEN, LINE_SIZE, BLANK_CHAR, blank_attr,
    blank_byte, blank_grid, put_cell, scrolled,
};

verus! {

/// Number of cells in the grid.
pub const CELL_COUNT: usize = SCREEN_WIDTH * SCREEN_HEIGHT;

/// Character byte shown in place of anything outside printable ASCII.
pub const PLACEHOLDER: u8 = 0xfe;

/// `c` lies in printable ASCII, space to tilde.
pub open spec fn is_printable(c: char) -> bool {
    0x20 <= c as u32 <= 0x7e
}

/// The character byte stored for `c`: `c` itself when printable, else the placeholder.
pub open spec fn glyph(c: char) -> u8 {
    if is_printable(c) {
        c as u32 as u8
    } else {
        PLACEHOLDER
    }
}

/// The cursor after a scroll from `count`: moved back by the distance from
/// its column to the end of the row, and never below zero.
pub open spec fn scroll_cursor(count: nat) -> nat {
    let back = SCREEN_WIDTH - count % (SCREEN_WIDTH as nat);
    if count >= back {
        (count - back) as nat
    } else {
        0
    }
}

/// Grid and cursor after moving the cursor to the start of the next row,
/// scrolling by one row if that row is past the bottom.
pub open spec fn line_break(g: Seq<u8>, count: nat) -> (Seq<u8>, nat) {
    let n = count + (SCREEN_WIDTH - count % (SCREEN_WIDTH as nat)) as nat;
    if n / (SCREEN_WIDTH as nat) >= SCREEN_HEIGHT {
        (scrolled(g, 1), scroll_cursor(n))
    } else {
        (g, n)
    }
}

/// Grid and cursor after writing `c` with attribute `attr` at cursor `count`.
pub open spec fn put_char(g: Seq<u8>, count: nat, c: char, attr: u8) -> (Seq<u8>, nat) {
    if c == '\n' {
        line_break(g, count)
    } else {
        let g1 = put_cell(
            g,
            (count % (SCREEN_WIDTH as nat)) as int,
            (count / (SCREEN_WIDTH as nat)) as int,
            glyph(c),
            attr,
        );
        let n = count + 1;
        if n % (SCREEN_WIDTH as nat) == 0 && n / (SCREEN_WIDTH as nat) >= SCREEN_HEIGHT {
            (scrolled(g1, 1), scroll_cursor(n))
        } else {
            (g1, n)
        }
    }
}

/// Grid and cursor after writing every character of `s`, in order.
pub open spec fn put_str(g: Seq<u8>, count: nat, s: Seq<char>, attr: u8) -> (Seq<u8>, nat)
    decreases s.len(),
{
    if s.len() == 0 {
        (g, count)
    } else {
        let p = put_str(g, count, s.drop_last(), attr);
        put_char(p.0, p.1, s.last(), attr)
    }
}

/// Grid and cursor after a clear, whatever they were before.
pub open spec fn cleared(g: Seq<u8>, count: nat) -> (Seq<u8>, nat) {
    (blank_grid(), 0)
}

/// The text console: owns the grid and the cursor, which counts the cells
/// written since the last clear.
pub struct Console {
    char_count: usize,
    vga_buffer: VGABuffer,
}

impl Console {
    /// The bytes of the grid.
    pub closed spec fn grid(&self) -> Seq<u8> {
        self.vga_buffer.cells()
    }

    /// The cursor: cells written since the last clear.
    pub closed spec fn cursor(&self) -> nat {
        self.char_count as nat
    }

    /// The grid has its full size and the cursor lies on a visible row.
    pub open spec fn wf(&self) -> bool {
        &&& self.grid().len() == BUFFER_LEN
        &&& self.cursor() < CELL_COUNT
    }

    /// A console over a blank grid, with the cursor at the top left.
    pub fn new() -> (r: Console)
        ensures
            r.wf(),
            r.grid() == blank_grid(),
            r.cursor() == 0,
    {
        Console { char_count: 0, vga_buffer: VGABuffer::new() }
    }

    /// Writes `s` in white on black.
    pub fn write_str(&mut self, s: &str)
        requires
            old(self).wf(),
        ensures
            final(self).wf(),
            (final(self).grid(), final(self).cursor()) == put_str(
                old(self).grid(),
                old(self).cursor(),
                s@,
                pack(Color::White, Color::Black),
            ),
    {
        self.write_str_colored(s, ColorCode::new(Color::White, Color::Black));
    }

    /// Writes every character of `s` in `color`, in order.
    pub fn write_str_colored(&mut self, s: &str, color: ColorCode)
        requires
            old(self).wf(),
        ensures
            final(self).wf(),
            (final(self).grid(), final(self).cursor()) == put_str(
                old(self).grid(),
                old(self).cursor(),
                s@,
                color.byte(),
            ),
    {
        let ghost g0 = self.grid();
        let ghost c0 = self.cursor();
        for c in it: s.chars()
            invariant
                self.wf(),
                it.seq() == s@,
                (self.grid(), self.cursor()) == put_str(g0, c0, it.seq().take(it.index() as int), color.byte()),
        {
            proof {
                let t = it.seq().take(it.index() as int + 1);
                assert(t.drop_last() =~= it.seq().take(it.index() as int));
            }
            self.write_char_colored(c, color);
        }
        proof {
            assert(s@.take(s@.len() as int) =~= s@);
        }
    }

    /// Writes `c` in white on black.
    pub fn write_char(&mut self, c: char)
        requires
            old(self).wf(),
        ensures
            final(self).wf(),
            (final(self).grid(), final(self).cursor()) == put_char(
                old(self).grid(),
                old(self).cursor(),
                c,
                pack(Color::White, Color::Black),
            ),
    {
        self.write_char_colored(c, ColorCode::new(Color::White, Color::Black));
    }

    /// Writes `c` in `color` at the cursor and advances it; a newline breaks
    /// the line instead, and anything outside printable ASCII shows as the
    /// placeholder. Running past the last cell scrolls by one row.
    pub fn write_char_colored(&mut self, c: char, color: ColorCode)
        requires
            old(self).wf(),
        ensures
            final(self).wf(),
            (final(self).grid(), final(self).cursor()) == put_char(
                old(self).grid(),
                old(self).cursor(),
                c,
                color.byte(),
            ),
    {
        if c == '\n' {
            self.new_line();
            return;
        }
        let code = c as u32;
        let byte: u8 = if 0x20 <= code && code <= 0x7e {
            code as u8
        } else {
            PLACEHOLDER
        };
        let column = self.get_column();
        let line = self.get_line();
        self.vga_buffer.write_byte(column, line, byte, color);
        self.char_count = self.char_count + 1;
        if self.char_count % SCREEN_WIDTH == 0 && self.get_line() >= SCREEN_HEIGHT {
            self.scroll(1);
        }
    }

    /// Moves the cursor to the start of the next row, scrolling by one row if
    /// that row is past the bottom.
    pub fn new_line(&mut self)
        requires
            old(self).wf(),
        ensures
            final(self).wf(),
            (final(self).grid(), final(self).cursor()) == line_break(
                old(self).grid(),
                old(self).cursor(),
            ),
    {
        self.char_count = self.char_count + (SCREEN_WIDTH - self.get_column());
        if self.get_line() >= SCREEN_HEIGHT {
            self.scroll(1);
        }
    }

    /// Scrolls the grid by `lines` rows and moves the cursor back by the
    /// distance from its column to the end of the row, stopping at zero.
    pub fn scroll(&mut self, lines: usize)
        requires
            old(self).grid().len() == BUFFER_LEN,
            old(self).cursor() <= CELL_COUNT,
        ensures
            final(self).wf(),
            final(self).grid() == scrolled(old(self).grid(), lines as nat),
            final(self).cursor() == scroll_cursor(old(self).cursor()),
    {
        self.vga_buffer.scroll(lines);
        let back = SCREEN_WIDTH - self.get_column();
        if self.char_count >= back {
            self.char_count = self.char_count - back;
        } else {
            self.char_count = 0;
        }
    }

    /// Blanks the grid and puts the cursor back at the top left.
    pub fn clear(&mut self)
        requires
            old(self).wf(),
        ensures
            final(self).wf(),
            (final(self).grid(), final(self).cursor()) == cleared(
                old(self).grid(),
                old(self).cursor(),
            ),
    {
        self.vga_buffer.clear();
        self.char_count = 0;
    }

    /// Column of the cursor.
    pub fn get_column(&self) -> (r: usize)
        ensures
            r == self.cursor() % (SCREEN_WIDTH as nat),
    {
        self.char_count % SCREEN_WIDTH
    }

    /// Row of the cursor.
    pub fn get_line(&self) -> (r: usize)
        ensures
            r == self.cursor() / (SCREEN_WIDTH as nat),
    {
        self.char_count / SCREEN_WIDTH
    }

    /// The character byte and attribute byte of cell (`x`, `y`).
    pub fn read_cell(&self, x: usize, y: usize) -> (r: (u8, u8))
        requires
            self.wf(),
            x < SCREEN_WIDTH,
            y < SCREEN_HEIGHT,
        ensures
            r.0 == self.grid()[(y * SCREEN_WIDTH + x) * 2],
            r.1 == self.grid()[(y * SCREEN_WIDTH + x) * 2 + 1],
    {
        self.vga_buffer.read_cell(x, y)
    }
}

/// `g` with the characters of `s` stored from cell `count` on, one cell each,
/// every one with attribute `attr`.
pub open spec fn written(g: Seq<u8>, count: nat, s: Seq<char>, attr: u8) -> Seq<u8> {
    Seq::new(
        g.len(),
        |i: int|
            if 2 * count <= i < 2 * (count + s.len()) {
                if i % 2 == 0 {
                    glyph(s[i / 2 - count])
                } else {
                    attr
                }
            } else {
                g[i]
            },
    )
}

/// A printable character written short of the last cell lands, with its
/// attribute, in the cell under the cursor, changes no other byte, and
/// advances the cursor by one.
pub proof fn lemma_write_printable(g: Seq<u8>, count: nat, c: char, attr: u8)
    requires
        g.len() == BUFFER_LEN,
        count + 1 < CELL_COUNT,
        is_printable(c),
    ensures
        put_char(g, count, c, attr) == (
            g.update(2 * count as int, c as u32 as u8).update(2 * count + 1 as int, attr),
            count + 1,
        ),
{
}

/// Any character other than a newline that is not printable ASCII is stored
/// as the placeholder byte.
pub proof fn lemma_write_unprintable(g: Seq<u8>, count: nat, c: char, attr: u8)
    requires
        g.len() == BUFFER_LEN,
        count + 1 < CELL_COUNT,
        c != '\n',
        !is_printable(c),
    ensures
        put_char(g, count, c, attr).0[2 * count as int] == PLACEHOLDER,
        put_char(g, count, c, attr).1 == count + 1,
{
}

/// A run of characters without newlines that ends short of the last cell is
/// stored cell after cell from the cursor on, with no scroll, and moves the
/// cursor by its length.
pub proof fn lemma_write_run(g: Seq<u8>, count: nat, s: Seq<char>, attr: u8)
    requires
        g.len() == BUFFER_LEN,
        count + s.len() < CELL_COUNT,
        forall|i: int| 0 <= i < s.len() ==> s[i] != '\n',
    ensures
        put_str(g, count, s, attr) == (written(g, count, s, attr), count + s.len()),
    decreases s.len(),
{
    if s.len() == 0 {
        assert(written(g, count, s, attr) =~= g);
    } else {
        let s0 = s.drop_last();
        lemma_write_run(g, count, s0, attr);
        let n = count + s0.len();
        let w0 = written(g, count, s0, attr);
        assert((n / (SCREEN_WIDTH as nat)) * SCREEN_WIDTH + n % (SCREEN_WIDTH as nat) == n);
        assert((n + 1) / (SCREEN_WIDTH as nat) < SCREEN_HEIGHT);
        let r = put_char(w0, n, s.last(), attr);
        assert(r.0 =~= written(g, count, s, attr));
    }
}

/// A full row of printable characters written from the start of a row above
/// the last one leaves the cursor at column 0 of the next row, with no scroll.
pub proof fn lemma_write_full_row(g: Seq<u8>, row: nat, s: Seq<char>, attr: u8)
    requires
        g.len() == BUFFER_LEN,
        row + 1 < SCREEN_HEIGHT,
        s.len() == SCREEN_WIDTH,
        forall|i: int| 0 <= i < s.len() ==> is_printable(#[trigger] s[i]),
    ensures
        put_str(g, (row * SCREEN_WIDTH) as nat, s, attr).0 == written(g, (row * SCREEN_WIDTH) as nat, s, attr),
        put_str(g, (row * SCREEN_WIDTH) as nat, s, attr).1 % (SCREEN_WIDTH as nat) == 0,
        put_str(g, (row * SCREEN_WIDTH) as nat, s, attr).1 / (SCREEN_WIDTH as nat) == row + 1,
{
    assert((row + 1) * SCREEN_WIDTH < CELL_COUNT) by (nonlinear_arith)
        requires
            row + 1 < SCREEN_HEIGHT,
    ;
    lemma_write_run(g, (row * SCREEN_WIDTH) as nat, s, attr);
    assert(row * SCREEN_WIDTH + s.len() == (row + 1) * SCREEN_WIDTH);
}

/// From the top left, one printable character short of a full grid fills
/// every cell but the last with no scroll; the next printable character takes
/// the last cell and scrolls by exactly one row: the top row is dropped, the
/// other rows move up by one, the bottom row is blank, and the cursor stands
/// at column 0 of the bottom row.
pub proof fn lemma_fill_then_scroll(g: Seq<u8>, s: Seq<char>, c: char, attr: u8)
    requires
        g.len() == BUFFER_LEN,
        s.len() + 1 == CELL_COUNT,
        forall|i: int| 0 <= i < s.len() ==> is_printable(#[trigger] s[i]),
        is_printable(c),
    ensures
        put_str(g, 0, s, attr) == (written(g, 0, s, attr), (CELL_COUNT - 1) as nat),
        ({
            let full = written(g, 0, s.push(c), attr);
            let after = put_str(g, 0, s.push(c), attr);
            &&& after.0 == scrolled(full, 1)
            &&& after.1 == (SCREEN_HEIGHT - 1) * SCREEN_WIDTH
            &&& forall|i: int|
                0 <= i < (SCREEN_HEIGHT - 1) * LINE_SIZE ==> after.0[i] == full[i + LINE_SIZE]
            &&& forall|i: int|
                (SCREEN_HEIGHT - 1) * LINE_SIZE <= i < BUFFER_LEN ==> after.0[i] == blank_byte(i)
        }),
{
    lemma_write_run(g, 0, s, attr);
    let t = s.push(c);
    assert(t.drop_last() =~= s);
    let w = written(g, 0, s, attr);
    let n: nat = (CELL_COUNT - 1) as nat;
    assert(w.update(2 * n as int, c as u32 as u8).update(2 * n + 1 as int, attr) =~= written(g, 0, t, attr));
}

/// Clearing gives a fully blank grid and a cursor of zero whatever came
/// before, so a second clear changes nothing.
pub proof fn lemma_clear_idempotent(g: Seq<u8>, count: nat)
    ensures
        cleared(cleared(g, count).0, cleared(g, count).1) == cleared(g, count),
        cleared(g, count).1 == 0,
        cleared(g, count).0.len() == BUFFER_LEN,
        forall|i: int|
            0 <= i < BUFFER_LEN ==> cleared(g, count).0[i] == if i % 2 == 0 {
                BLANK_CHAR
            } else {
                blank_attr()
            },
{
}

} // verus!
