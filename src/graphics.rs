//! The 320 by 200 pixel screen of the 256-color mode, held in memory: one
//! byte per pixel, row by row.
use vstd::prelude::*;

verus! {

pub const SCREEN_WIDTH: usize = 320;

pub const SCREEN_HEIGHT: usize = 200;

pub const SCREEN_PIXELS: usize = 64000;

/// Index of pixel (`x`, `y`).
pub open spec fn pixel_index(x: int, y: int) -> int {
    y * SCREEN_WIDTH + x
}

/// Width and height of a character glyph, in pixels.
pub const GLYPH_SIZE: usize = 8;

/// Whether column `col` of a glyph row is lit: bit 7 is the leftmost column.
pub open spec fn glyph_bit(row: u8, col: int) -> bool {
    (row >> ((7 - col) as u8)) & 1u8 == 1u8
}

/// Whether pixel index `k` is lit by `glyph` drawn with its top left
/// corner at (`x`, `y`).
pub open spec fn in_glyph(k: int, glyph: Seq<u8>, x: int, y: int, rows: int, cols_in_last: int) -> bool {
    let c = k % (SCREEN_WIDTH as int) - x;
    let r = k / (SCREEN_WIDTH as int) - y;
    &&& 0 <= c < GLYPH_SIZE
    &&& 0 <= r < GLYPH_SIZE
    &&& (r < rows || (r == rows && c < cols_in_last))
    &&& glyph_bit(glyph[r], c)
}

#[allow(non_camel_case_types)]
pub struct graphics {
    pixels: Vec<u8>,
}

impl View for graphics {
    type V = Seq<u8>;

    closed spec fn view(&self) -> Seq<u8> {
        self.pixels@
    }
}

impl graphics {
    /// A screen of color 0.
    pub fn new() -> (r: Self)
        ensures
            r@.len() == SCREEN_PIXELS,
            forall|k: int| 0 <= k < SCREEN_PIXELS ==> r@[k] == 0,
    {
        let mut pixels: Vec<u8> = Vec::new();
        let mut k: usize = 0;
        while k < SCREEN_PIXELS
            invariant
                0 <= k <= SCREEN_PIXELS,
                pixels@.len() == k,
                forall|j: int| 0 <= j < k ==> pixels@[j] == 0,
            decreases SCREEN_PIXELS - k,
        {
            pixels.push(0);
            k += 1;
        }
        graphics { pixels }
    }

    /// Sets pixel (`x`, `y`) to `color`; a pixel off the screen is ignored.
    pub fn draw_pixel(&mut self, x: usize, y: usize, color: u8)
        requires
            old(self)@.len() == SCREEN_PIXELS,
        ensures
            final(self)@ == if x < SCREEN_WIDTH && y < SCREEN_HEIGHT {
                old(self)@.update(pixel_index(x as int, y as int), color)
            } else {
                old(self)@
            },
    {
        if x >= SCREEN_WIDTH || y >= SCREEN_HEIGHT {
            return;
        }
        let offset = y * SCREEN_WIDTH + x;
        self.pixels.set(offset, color);
    }

    /// Fills the whole screen with `color`.
    pub fn clear_screen(&mut self, color: u8)
        requires
            old(self)@.len() == SCREEN_PIXELS,
        ensures
            final(self)@.len() == SCREEN_PIXELS,
            forall|k: int| 0 <= k < SCREEN_PIXELS ==> final(self)@[k] == color,
    {
        let mut k: usize = 0;
        while k < SCREEN_PIXELS
            invariant
                0 <= k <= SCREEN_PIXELS,
                self@.len() == SCREEN_PIXELS,
                forall|j: int| 0 <= j < k ==> self@[j] == color,
            decreases SCREEN_PIXELS - k,
        {
            self.pixels.set(k, color);
            k += 1;
        }
    }

    /// Draws the 8 by 8 `glyph` (one byte per row) in `color` with its top
    /// left corner at (`x`, `y`), which may lie anywhere; unlit pixels, and
    /// pixels off the screen, are left as they were.
    pub fn draw_char(&mut self, glyph: [u8; 8], x: usize, y: usize, color: u8)
        requires
            old(self)@.len() == SCREEN_PIXELS,
        ensures
            final(self)@.len() == SCREEN_PIXELS,
            forall|k: int|
                0 <= k < SCREEN_PIXELS ==> final(self)@[k] == if in_glyph(
                    k,
                    glyph@,
                    x as int,
                    y as int,
                    GLYPH_SIZE as int,
                    0,
                ) {
                    color
                } else {
                    old(self)@[k]
                },
    {
        if x >= SCREEN_WIDTH || y >= SCREEN_HEIGHT {
            return;
        }
        let mut row: usize = 0;
        while row < GLYPH_SIZE
            invariant
                0 <= row <= GLYPH_SIZE,
                x < SCREEN_WIDTH,
                y < SCREEN_HEIGHT,
                self@.len() == SCREEN_PIXELS,
                forall|k: int|
                    0 <= k < SCREEN_PIXELS ==> #[trigger] self@[k] == if in_glyph(
                        k,
                        glyph@,
                        x as int,
                        y as int,
                        row as int,
                        0,
                    ) {
                        color
                    } else {
                        old(self)@[k]
                    },
            decreases GLYPH_SIZE - row,
        {
            let bits = glyph[row];
            let mut col: usize = 0;
            while col < GLYPH_SIZE
                invariant
                    0 <= col <= GLYPH_SIZE,
                    0 <= row < GLYPH_SIZE,
                    bits == glyph@[row as int],
                    x < SCREEN_WIDTH,
                    y < SCREEN_HEIGHT,
                    self@.len() == SCREEN_PIXELS,
                    forall|k: int|
                        0 <= k < SCREEN_PIXELS ==> #[trigger] self@[k] == if in_glyph(
                            k,
                            glyph@,
                            x as int,
                            y as int,
                            row as int,
                            col as int,
                        ) {
                            color
                        } else {
                            old(self)@[k]
                        },
                decreases GLYPH_SIZE - col,
            {
                if (bits >> (7 - col) as u8) & 1 == 1 {
                    self.draw_pixel(x + col, y + row, color);
                }
                col += 1;
            }
            row += 1;
        }
    }

    pub fn pixels(&self) -> (r: &[u8])
        ensures
            r@ == self@,
    {
        self.pixels.as_slice()
    }
}

} // verus!
