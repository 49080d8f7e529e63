//! The text grid: `SCREEN_WIDTH` × `SCREEN_HEIGHT` cells, row-major, two bytes
//! per cell (character, then attribute), every byte held in a volatile cell so
//! that no store is reordered or elided.

use vstd::prelude::*;
use volatile::Volatile;
use crate::color::{Color, ColorCode, pack};

verus! {

/// Cells per row.
pub const SCREEN_WIDTH: usize = 80;

/// Rows in the grid.
pub const SCREEN_HEIGHT: usize = 25;

/// Bytes in the grid: one character byte and one attribute byte per cell.
pub const BUFFER_LEN: usize = SCREEN_WIDTH * SCREEN_HEIGHT * 2;

/// Bytes in one row.
pub const LINE_SIZE: usize = SCREEN_WIDTH * 2;

/// Character byte of a blank cell.
pub const BLANK_CHAR: u8 = 0x20;

#[verifier::external_type_specification]
#[verifier::external_body]
#[verifier::reject_recursive_types(T)]
pub struct ExVolatile<T: Copy>(Volatile<T>);

/// The byte that a volatile cell currently holds.
pub uninterp spec fn volatile_value(v: Volatile<u8>) -> u8;

/// Relies on `volatile::Volatile::new`: the new cell holds `value`.
#[verifier::external_body]
fn volatile_new(value: u8) -> (r: Volatile<u8>)
    ensures
        volatile_value(r) == value,
{
    Volatile::new(value)
}

/// Relies on `volatile::Volatile::read`: a volatile load of the held byte.
#[verifier::external_body]
fn volatile_read(v: &Volatile<u8>) -> (r: u8)
    ensures
        r == volatile_value(*v),
{
    v.read()
}

/// Relies on `volatile::Volatile::write`: a volatile store; the cell then holds `value`.
#[verifier::external_body]
fn volatile_write(v: &mut Volatile<u8>, value: u8)
    ensures
        volatile_value(*final(v)) == value,
{
    v.write(value)
}

/// Attribute byte of a blank cell: white text on black.
pub open spec fn blank_attr() -> u8 {
    pack(Color::White, Color::Black)
}

/// The byte that a blank grid holds at offset `i`.
pub open spec fn blank_byte(i: int) -> u8 {
    if i % 2 == 0 {
        BLANK_CHAR
    } else {
        blank_attr()
    }
}

/// A grid with every cell blank: a space, white on black.
pub open spec fn blank_grid() -> Seq<u8> {
    Seq::new(BUFFER_LEN as nat, |i: int| blank_byte(i))
}

/// Byte offset of the character byte of cell (`x`, `y`).
pub open spec fn cell_offset(x: int, y: int) -> int {
    (y * SCREEN_WIDTH + x) * 2
}

/// `g` after storing `byte` and `attr` in cell (`x`, `y`); a cell whose
/// offset falls outside the grid leaves it unchanged.
pub open spec fn put_cell(g: Seq<u8>, x: int, y: int, byte: u8, attr: u8) -> Seq<u8> {
    let off = cell_offset(x, y);
    if off + 1 < BUFFER_LEN {
        g.update(off, byte).update(off + 1, attr)
    } else {
        g
    }
}

/// `g` moved up by `lines` rows: the top rows are dropped, the rows below move
/// up in order, and the freed rows at the bottom are blank.
pub open spec fn scrolled(g: Seq<u8>, lines: nat) -> Seq<u8> {
    Seq::new(
        BUFFER_LEN as nat,
        |i: int|
            if lines < SCREEN_HEIGHT && i < (SCREEN_HEIGHT - lines) * LINE_SIZE {
                g[i + lines * LINE_SIZE]
            } else {
                blank_byte(i)
            },
    )
}

/// Exclusive owner of the grid's memory; every byte of it is read and written
/// through volatile accesses.
pub struct VGABuffer {
    buffer: Vec<Volatile<u8>>,
}

impl VGABuffer {
    /// The bytes of the grid, in memory order.
    pub closed spec fn cells(&self) -> Seq<u8> {
        self.buffer@.map_values(|v: Volatile<u8>| volatile_value(v))
    }

    /// The grid has its full size.
    pub open spec fn wf(&self) -> bool {
        self.cells().len() == BUFFER_LEN
    }

    /// A grid of blank cells.
    pub fn new() -> (r: VGABuffer)
        ensures
            r.cells() == blank_grid(),
    {
        let mut buffer: Vec<Volatile<u8>> = Vec::new();
        let mut i: usize = 0;
        while i < BUFFER_LEN
            invariant
                i <= BUFFER_LEN,
                buffer@.len() == i,
            decreases BUFFER_LEN - i,
        {
            buffer.push(volatile_new(0));
            i = i + 1;
        }
        let mut r = VGABuffer { buffer };
        r.clear();
        r
    }

    /// Stores `byte` and `color` in cell (`x`, `y`). The offset is linear, so a
    /// column past the row's end lands on a following row; a cell past the
    /// grid's end is dropped without a word.
    pub fn write_byte(&mut self, x: usize, y: usize, byte: u8, color: ColorCode)
        requires
            old(self).wf(),
        ensures
            final(self).cells() == put_cell(old(self).cells(), x as int, y as int, byte, color.byte()),
    {
        if y >= SCREEN_HEIGHT || x >= BUFFER_LEN / 2 - y * SCREEN_WIDTH {
            return;
        }
        let offset = (y * SCREEN_WIDTH + x) * 2;
        self.set(offset, byte);
        self.set(offset + 1, color.as_byte());
    }

    /// Moves the grid up by `lines` rows, cell by cell and keeping both bytes
    /// of every cell, then blanks the freed rows at the bottom. Zero lines
    /// changes nothing; `SCREEN_HEIGHT` lines or more blank the whole grid.
    pub fn scroll(&mut self, lines: usize)
        requires
            old(self).wf(),
        ensures
            final(self).cells() == scrolled(old(self).cells(), lines as nat),
    {
        let end: usize = SCREEN_WIDTH * SCREEN_HEIGHT;
        let kept: usize = if lines < SCREEN_HEIGHT {
            SCREEN_HEIGHT - lines
        } else {
            0
        };
        let shift: usize = (SCREEN_HEIGHT - kept) * SCREEN_WIDTH;
        let ghost g0 = self.cells();

        let mut i: usize = shift;
        while i < end
            invariant
                shift <= i <= end,
                end == SCREEN_WIDTH * SCREEN_HEIGHT,
                shift == (SCREEN_HEIGHT - kept) * SCREEN_WIDTH,
                kept <= SCREEN_HEIGHT,
                g0.len() == BUFFER_LEN,
                self.cells().len() == BUFFER_LEN,
                forall|j: int| 0 <= j < (i - shift) * 2 ==> self.cells()[j] == g0[j + shift * 2],
                forall|j: int| (i - shift) * 2 <= j < BUFFER_LEN ==> self.cells()[j] == g0[j],
            decreases end - i,
        {
            let src = i * 2;
            let dst = (i - shift) * 2;
            let byte = self.get(src);
            self.set(dst, byte);
            let attr = self.get(src + 1);
            self.set(dst + 1, attr);
            i = i + 1;
        }

        let blank = ColorCode::new(Color::White, Color::Black);
        let mut k: usize = kept * SCREEN_WIDTH;
        while k < end
            invariant
                kept * SCREEN_WIDTH <= k <= end,
                end == SCREEN_WIDTH * SCREEN_HEIGHT,
                shift == (SCREEN_HEIGHT - kept) * SCREEN_WIDTH,
                kept <= SCREEN_HEIGHT,
                blank.byte() == blank_attr(),
                g0.len() == BUFFER_LEN,
                self.cells().len() == BUFFER_LEN,
                forall|j: int| 0 <= j < kept * LINE_SIZE ==> self.cells()[j] == g0[j + shift * 2],
                forall|j: int| kept * LINE_SIZE <= j < k * 2 ==> self.cells()[j] == blank_byte(j),
            decreases end - k,
        {
            self.set(k * 2, BLANK_CHAR);
            self.set(k * 2 + 1, blank.as_byte());
            k = k + 1;
        }
        assert(self.cells() =~= scrolled(g0, lines as nat));
    }

    /// Blanks every cell: a space, white on black.
    pub fn clear(&mut self)
        requires
            old(self).wf(),
        ensures
            final(self).cells() == blank_grid(),
    {
        let blank = ColorCode::new(Color::White, Color::Black);
        let mut y: usize = 0;
        while y < SCREEN_HEIGHT
            invariant
                y <= SCREEN_HEIGHT,
                blank.byte() == blank_attr(),
                self.cells().len() == BUFFER_LEN,
                forall|j: int| 0 <= j < y * LINE_SIZE ==> self.cells()[j] == blank_byte(j),
            decreases SCREEN_HEIGHT - y,
        {
            let mut x: usize = 0;
            while x < SCREEN_WIDTH
                invariant
                    x <= SCREEN_WIDTH,
                    y < SCREEN_HEIGHT,
                    blank.byte() == blank_attr(),
                    self.cells().len() == BUFFER_LEN,
                    forall|j: int| 0 <= j < y * LINE_SIZE + x * 2 ==> self.cells()[j] == blank_byte(j),
                decreases SCREEN_WIDTH - x,
            {
                self.write_byte(x, y, BLANK_CHAR, blank);
                x = x + 1;
            }
            y = y + 1;
        }
        assert(self.cells() =~= blank_grid());
    }

    /// The character byte and attribute byte of cell (`x`, `y`).
    pub fn read_cell(&self, x: usize, y: usize) -> (r: (u8, u8))
        requires
            self.wf(),
            x < SCREEN_WIDTH,
            y < SCREEN_HEIGHT,
        ensures
            r.0 == self.cells()[cell_offset(x as int, y as int)],
            r.1 == self.cells()[cell_offset(x as int, y as int) + 1],
    {
        let offset = (y * SCREEN_WIDTH + x) * 2;
        (self.get(offset), self.get(offset + 1))
    }

    /// Stores one byte at `offset`.
    fn set(&mut self, offset: usize, byte: u8)
        requires
            offset < old(self).cells().len(),
        ensures
            final(self).cells() == old(self).cells().update(offset as int, byte),
    {
        volatile_write(&mut self.buffer[offset], byte);
        assert(final(self).cells() =~= old(self).cells().update(offset as int, byte));
    }

    /// The byte at `offset`.
    fn get(&self, offset: usize) -> (r: u8)
        requires
            offset < self.cells().len(),
        ensures
            r == self.cells()[offset as int],
    {
        volatile_read(&self.buffer[offset])
    }
}

} // verus!
