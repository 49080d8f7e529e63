//! Text-mode console driver: a packed color attribute, a grid of character
//! cells written through volatile memory, and a cursor that wraps lines and
//! scrolls the grid when output runs past the last row.

pub mod color;
pub mod vga_buffer;
pub mod console;
