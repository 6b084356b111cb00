//! The snake game drawn on the pixel screen: the same rules as the text
//! version, each board cell shown as a square of pixels.
use vstd::prelude::*;
use crate::graphics::{graphics, SCREEN_PIXELS, SCREEN_WIDTH, SCREEN_HEIGHT};
use crate::scancode_buffer::ScancodeBuffer;
use crate::snake::{SnakeAction, SnakeGame, SnakeView, GAME_WIDTH, GAME_HEIGHT, drain_keys, wake_outcome};

pub use crate::snake::Direction;

verus! {

/// Side of the pixel square that shows one cell.
pub const SQUARE: usize = 4;

/// Position of the board on the screen, in squares.
pub const GAME_OFFSET_X: usize = 20;
pub const GAME_OFFSET_Y: usize = 16;

/// Whether pixel index `k` lies in the square at (`x`, `y`), counted in
/// squares: its column and row fall in the square's range.
pub open spec fn in_square(k: int, x: int, y: int) -> bool {
    &&& x * SQUARE <= k % (SCREEN_WIDTH as int) < x * SQUARE + SQUARE
    &&& y * SQUARE <= k / (SCREEN_WIDTH as int) < y * SQUARE + SQUARE
}

/// The part of that square painted after the rows above `dy` and the first
/// `dx` pixels of row `dy`.
pub open spec fn in_square_before(k: int, x: int, y: int, dy: int, dx: int) -> bool {
    let c = k % (SCREEN_WIDTH as int) - x * SQUARE;
    let r = k / (SCREEN_WIDTH as int) - y * SQUARE;
    &&& 0 <= c < SQUARE
    &&& 0 <= r < SQUARE
    &&& (r < dy || (r == dy && c < dx))
}

pub struct SnakeGameGraphics {
    game: SnakeGame,
    screen: graphics,
}

impl SnakeGameGraphics {
    pub closed spec fn state(&self) -> SnakeView {
        self.game@
    }

    pub closed spec fn pixels(&self) -> Seq<u8> {
        self.screen@
    }

    pub fn new() -> (r: Self)
        ensures
            r.state().wf(),
            !r.state().started,
            r.pixels().len() == SCREEN_PIXELS,
            forall|k: int| 0 <= k < SCREEN_PIXELS ==> r.pixels()[k] == 0,
    {
        SnakeGameGraphics { game: SnakeGame::new(), screen: graphics::new() }
    }

    pub fn game(&self) -> (r: &SnakeGame)
        ensures
            r@ == self.state(),
    {
        &self.game
    }

    pub fn screen(&self) -> (r: &graphics)
        ensures
            r@ == self.pixels(),
    {
        &self.screen
    }

    /// Starts a session (see `SnakeGame::enter`).
    pub fn enter(&mut self, buffer: &mut ScancodeBuffer, now: u32)
        requires
            old(buffer).wf(),
        ensures
            final(buffer).wf(),
            final(buffer)@.len() == 0,
            final(self).state() == (SnakeView { last_tick: now, ..old(self).state() }),
            final(self).pixels() == old(self).pixels(),
    {
        self.game.enter(buffer, now);
    }

    /// One wake-up of the game's loop at tick `now` (see `wake_outcome`).
    pub fn on_wake(&mut self, buffer: &mut ScancodeBuffer, now: u32) -> (r: SnakeAction)
        requires
            old(self).state().wf(),
            old(buffer).wf(),
        ensures
            final(self).state().wf(),
            final(buffer).wf(),
            (r, final(buffer)@, final(self).state()) == wake_outcome(
                old(self).state(),
                old(buffer)@,
                now,
            ),
            final(self).pixels() == old(self).pixels(),
    {
        self.game.on_wake(buffer, now)
    }

    /// Handles the pending key events (see `SnakeGame::drain_input`).
    pub fn drain_input(&mut self, buffer: &mut ScancodeBuffer) -> (quit: bool)
        requires
            old(buffer).wf(),
        ensures
            final(buffer).wf(),
            (quit, final(buffer)@, final(self).state()) == drain_keys(old(buffer)@, old(self).state()),
            final(self).pixels() == old(self).pixels(),
    {
        self.game.drain_input(buffer)
    }

    /// Moves the snake one cell (see `SnakeGame::update`).
    pub fn update(&mut self) -> (alive: bool)
        requires
            old(self).state().wf(),
        ensures
            final(self).state().wf(),
            (alive, final(self).state()) == old(self).state().step(),
            final(self).pixels() == old(self).pixels(),
    {
        self.game.update()
    }

    /// Blanks the whole screen, the board included.
    pub fn clear_game_area(&mut self)
        requires
            old(self).pixels().len() == SCREEN_PIXELS,
        ensures
            final(self).state() == old(self).state(),
            final(self).pixels().len() == SCREEN_PIXELS,
            forall|k: int| 0 <= k < SCREEN_PIXELS ==> final(self).pixels()[k] == 0,
    {
        self.screen.clear_screen(0);
    }

    /// Paints board cell (`x`, `y`); a cell off the board is ignored.
    pub fn draw_cell(&mut self, x: usize, y: usize, color: u8)
        requires
            old(self).pixels().len() == SCREEN_PIXELS,
        ensures
            final(self).state() == old(self).state(),
            final(self).pixels().len() == SCREEN_PIXELS,
            forall|k: int|
                0 <= k < SCREEN_PIXELS ==> final(self).pixels()[k] == if x < GAME_WIDTH && y
                    < GAME_HEIGHT && in_square(
                    k,
                    GAME_OFFSET_X + x,
                    GAME_OFFSET_Y + y,
                ) {
                    color
                } else {
                    old(self).pixels()[k]
                },
    {
        if x < GAME_WIDTH && y < GAME_HEIGHT {
            self.draw_square(GAME_OFFSET_X + x, GAME_OFFSET_Y + y, color);
        }
    }

    /// Paints the square at (`x`, `y`), counted in squares; pixels off the
    /// screen are skipped.
    pub fn draw_square(&mut self, x: usize, y: usize, color: u8)
        requires
            old(self).pixels().len() == SCREEN_PIXELS,
            x < SCREEN_WIDTH,
            y < SCREEN_HEIGHT,
        ensures
            final(self).state() == old(self).state(),
            final(self).pixels().len() == SCREEN_PIXELS,
            forall|k: int|
                0 <= k < SCREEN_PIXELS ==> final(self).pixels()[k] == if in_square(k, x as int, y as int) {
                    color
                } else {
                    old(self).pixels()[k]
                },
    {
        let mut dy: usize = 0;
        while dy < SQUARE
            invariant
                0 <= dy <= SQUARE,
                x < SCREEN_WIDTH,
                y < SCREEN_HEIGHT,
                self.state() == old(self).state(),
                self.pixels().len() == SCREEN_PIXELS,
                forall|k: int|
                    0 <= k < SCREEN_PIXELS ==> #[trigger] self.pixels()[k] == if in_square_before(
                        k,
                        x as int,
                        y as int,
                        dy as int,
                        0,
                    ) {
                        color
                    } else {
                        old(self).pixels()[k]
                    },
            decreases SQUARE - dy,
        {
            let mut dx: usize = 0;
            while dx < SQUARE
                invariant
                    0 <= dx <= SQUARE,
                    0 <= dy < SQUARE,
                    x < SCREEN_WIDTH,
                    y < SCREEN_HEIGHT,
                    self.state() == old(self).state(),
                    self.pixels().len() == SCREEN_PIXELS,
                    forall|k: int|
                        0 <= k < SCREEN_PIXELS ==> #[trigger] self.pixels()[k]
                            == if in_square_before(k, x as int, y as int, dy as int, dx as int) {
                            color
                        } else {
                            old(self).pixels()[k]
                        },
                decreases SQUARE - dx,
            {
                let px = x * SQUARE + dx;
                let py = y * SQUARE + dy;
                self.screen.draw_pixel(px, py, color);
                dx += 1;
            }
            dy += 1;
        }
    }
}

} // verus!
