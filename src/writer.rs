//! The text screen: 80 by 25 cells of (character, attribute) held in
//! memory, written through a cursor that wraps lines and scrolls.
use vstd::prelude::*;
use vstd::string::StringSliceAdditionalSpecFns;
use crate::vga_colors::{Color, color_code};

verus! {

pub const VGA_WIDTH: usize = 80;

pub const VGA_HEIGHT: usize = 25;

/// Two bytes per cell: the character, then its attribute.
pub const SCREEN_BYTES: usize = 4000;

/// Shown in place of a byte that has no glyph.
pub const UNPRINTABLE: u8 = 0xfe;

pub const SPACE: u8 = 32;

pub const LINE_FEED: u8 = 10;

pub struct WriterView {
    pub col: int,
    pub row: int,
    pub color: u8,
    pub cells: Seq<u8>,
}

/// A row of blank cells in attribute `color`.
pub open spec fn blank_row(color: u8) -> Seq<u8> {
    Seq::new(
        (VGA_WIDTH * 2) as nat,
        |i: int|
            if i % 2 == 0 {
                SPACE
            } else {
                color
            },
    )
}

/// The byte shown for `b`: itself when printable or a line feed.
pub open spec fn shown(b: u8) -> u8 {
    if (0x20 <= b && b <= 0x7e) || b == LINE_FEED {
        b
    } else {
        UNPRINTABLE
    }
}

impl WriterView {
    pub open spec fn wf(self) -> bool {
        &&& self.cells.len() == SCREEN_BYTES
        &&& 0 <= self.row < VGA_HEIGHT
        &&& 0 <= self.col <= VGA_WIDTH
    }

    /// Moves to the start of the next row, scrolling everything up one row
    /// when already on the last.
    pub open spec fn newline(self) -> WriterView {
        if self.row < VGA_HEIGHT - 1 {
            WriterView { col: 0, row: self.row + 1, ..self }
        } else {
            WriterView {
                col: 0,
                cells: self.cells.skip((VGA_WIDTH * 2) as int) + blank_row(self.color),
                ..self
            }
        }
    }

    /// Writes one byte at the cursor (a line feed moves to the next row; a
    /// full row wraps first).
    pub open spec fn put_byte(self, b: u8) -> WriterView {
        if b == LINE_FEED {
            self.newline()
        } else {
            let w = if self.col >= VGA_WIDTH {
                self.newline()
            } else {
                self
            };
            let off = (w.row * VGA_WIDTH + w.col) * 2;
            WriterView {
                col: w.col + 1,
                cells: w.cells.update(off, b).update(off + 1, w.color),
                ..w
            }
        }
    }

    /// Writes each byte of `s` as it is shown.
    pub open spec fn put_bytes(self, s: Seq<u8>) -> WriterView
        decreases s.len(),
    {
        if s.len() == 0 {
            self
        } else {
            self.put_bytes(s.drop_last()).put_byte(shown(s.last()))
        }
    }
}

pub struct Writer {
    col: usize,
    row: usize,
    color: u8,
    cells: Vec<u8>,
}

impl View for Writer {
    type V = WriterView;

    closed spec fn view(&self) -> WriterView {
        WriterView { col: self.col as int, row: self.row as int, color: self.color, cells: self.cells@ }
    }
}

impl Writer {
    /// A blank screen in attribute `color`, the cursor at the top left.
    pub fn new(color: u8) -> (r: Self)
        ensures
            r@.wf(),
            r@.col == 0 && r@.row == 0,
            r@.color == color,
            forall|i: int| 0 <= i < SCREEN_BYTES ==> r@.cells[i] == if i % 2 == 0 {
                SPACE
            } else {
                color
            },
    {
        let mut cells: Vec<u8> = Vec::new();
        let mut i: usize = 0;
        while i < SCREEN_BYTES
            invariant
                0 <= i <= SCREEN_BYTES,
                i % 2 == 0,
                cells@.len() == i,
                forall|k: int| 0 <= k < i ==> cells@[k] == if k % 2 == 0 {
                    SPACE
                } else {
                    color
                },
            decreases SCREEN_BYTES - i,
        {
            cells.push(SPACE);
            cells.push(color);
            i += 2;
        }
        Writer { col: 0, row: 0, color, cells }
    }

    /// Moves every row up by one and blanks the last.
    fn scroll(&mut self)
        requires
            old(self)@.wf(),
        ensures
            final(self)@ == (WriterView {
                cells: old(self)@.cells.skip((VGA_WIDTH * 2) as int) + blank_row(old(self)@.color),
                ..old(self)@
            }),
    {
        let row_bytes: usize = VGA_WIDTH * 2;
        let mut k: usize = 0;
        while k < SCREEN_BYTES - row_bytes
            invariant
                0 <= k <= SCREEN_BYTES - row_bytes,
                row_bytes == VGA_WIDTH * 2,
                self@ == (WriterView { cells: self@.cells, ..old(self)@ }),
                self@.cells.len() == SCREEN_BYTES,
                forall|j: int| 0 <= j < k ==> self@.cells[j] == old(self)@.cells[j + row_bytes],
                forall|j: int| k <= j < SCREEN_BYTES ==> self@.cells[j] == old(self)@.cells[j],
            decreases SCREEN_BYTES - row_bytes - k,
        {
            let b = self.cells[k + row_bytes];
            self.cells.set(k, b);
            k += 1;
        }
        let mut k: usize = SCREEN_BYTES - row_bytes;
        while k < SCREEN_BYTES
            invariant
                SCREEN_BYTES - row_bytes <= k <= SCREEN_BYTES,
                k % 2 == 0,
                row_bytes == VGA_WIDTH * 2,
                self@ == (WriterView { cells: self@.cells, ..old(self)@ }),
                self@.cells.len() == SCREEN_BYTES,
                forall|j: int|
                    0 <= j < SCREEN_BYTES - row_bytes ==> self@.cells[j] == old(self)@.cells[j
                        + row_bytes],
                forall|j: int|
                    SCREEN_BYTES - row_bytes <= j < k ==> self@.cells[j] == blank_row(
                        old(self)@.color,
                    )[j - (SCREEN_BYTES - row_bytes)],
            decreases SCREEN_BYTES - k,
        {
            self.cells.set(k, SPACE);
            self.cells.set(k + 1, self.color);
            k += 2;
        }
        assert(self@.cells =~= old(self)@.cells.skip((VGA_WIDTH * 2) as int) + blank_row(
            old(self)@.color,
        ));
    }

    fn newline(&mut self)
        requires
            old(self)@.wf(),
        ensures
            final(self)@.wf(),
            final(self)@ == old(self)@.newline(),
    {
        self.col = 0;
        if self.row < VGA_HEIGHT - 1 {
            self.row += 1;
        } else {
            self.scroll();
        }
    }

    /// Writes one byte at the cursor.
    pub fn write_byte(&mut self, byte: u8)
        requires
            old(self)@.wf(),
        ensures
            final(self)@.wf(),
            final(self)@ == old(self)@.put_byte(byte),
    {
        if byte == LINE_FEED {
            self.newline();
        } else {
            if self.col >= VGA_WIDTH {
                self.newline();
            }
            let offset = (self.row * VGA_WIDTH + self.col) * 2;
            self.cells.set(offset, byte);
            self.cells.set(offset + 1, self.color);
            self.col += 1;
        }
    }

    /// Writes each byte, showing unprintable ones as a block.
    pub fn write_bytes(&mut self, s: &[u8])
        requires
            old(self)@.wf(),
        ensures
            final(self)@.wf(),
            final(self)@ == old(self)@.put_bytes(s@),
    {
        let mut i: usize = 0;
        while i < s.len()
            invariant
                0 <= i <= s@.len(),
                self@.wf(),
                self@ == old(self)@.put_bytes(s@.take(i as int)),
            decreases s.len() - i,
        {
            let byte = s[i];
            let out = if (0x20 <= byte && byte <= 0x7e) || byte == LINE_FEED {
                byte
            } else {
                UNPRINTABLE
            };
            self.write_byte(out);
            i += 1;
            assert(s@.take(i as int).drop_last() =~= s@.take(i - 1));
        }
        assert(s@.take(s@.len() as int) =~= s@);
    }

    /// Writes the bytes of `s`, as `write_bytes` does.
    pub fn write_str(&mut self, s: &str)
        requires
            old(self)@.wf(),
        ensures
            final(self)@.wf(),
            final(self)@ == old(self)@.put_bytes(s.spec_bytes()),
    {
        self.write_bytes(s.as_bytes());
    }

    /// Blanks the screen in the current attribute and homes the cursor.
    pub fn clear(&mut self)
        requires
            old(self)@.wf(),
        ensures
            final(self)@.wf(),
            final(self)@.col == 0 && final(self)@.row == 0,
            final(self)@.color == old(self)@.color,
            forall|i: int| 0 <= i < SCREEN_BYTES ==> final(self)@.cells[i] == if i % 2 == 0 {
                SPACE
            } else {
                old(self)@.color
            },
    {
        let mut i: usize = 0;
        while i < SCREEN_BYTES
            invariant
                0 <= i <= SCREEN_BYTES,
                i % 2 == 0,
                self@.cells.len() == SCREEN_BYTES,
                self@.color == old(self)@.color,
                self@.row < VGA_HEIGHT,
                self@.col <= VGA_WIDTH,
                forall|k: int| 0 <= k < i ==> self@.cells[k] == if k % 2 == 0 {
                    SPACE
                } else {
                    old(self)@.color
                },
            decreases SCREEN_BYTES - i,
        {
            self.cells.set(i, SPACE);
            self.cells.set(i + 1, self.color);
            i += 2;
        }
        self.col = 0;
        self.row = 0;
    }

    pub fn set_color(&mut self, fg: Color, bg: Color)
        ensures
            final(self)@ == (WriterView { color: (bg.index() * 16 + fg.index()) as u8, ..old(self)@ }),
    {
        self.color = color_code(fg, bg);
    }

    pub fn get_col(&self) -> (r: usize)
        ensures
            r == self@.col,
    {
        self.col
    }

    pub fn get_row(&self) -> (r: usize)
        ensures
            r == self@.row,
    {
        self.row
    }

    /// Moves the cursor; the position must lie on the screen (a column of
    /// `VGA_WIDTH` means the row is full).
    pub fn set_position(&mut self, col: usize, row: usize)
        requires
            col <= VGA_WIDTH,
            row < VGA_HEIGHT,
        ensures
            final(self)@ == (WriterView { col: col as int, row: row as int, ..old(self)@ }),
    {
        self.col = col;
        self.row = row;
    }

    /// Character and attribute bytes of every cell, row by row.
    pub fn cells(&self) -> (r: &[u8])
        ensures
            r@ == self@.cells,
    {
        self.cells.as_slice()
    }
}

} // verus!
