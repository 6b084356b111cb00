//! The snake game's rules: movement, growth, collisions, food placement and
//! key handling. Drawing is left to the caller.
use vstd::prelude::*;
use crate::scancode_buffer::ScancodeBuffer;
use crate::filesystem::{find_first, lemma_find_first};
use crate::timer::{ticks_between, ticks_elapsed};

verus! {

pub const GAME_WIDTH: usize = 40;

pub const GAME_HEIGHT: usize = 20;

pub const MAX_SNAKE_LEN: usize = 100;

/// Ticks between two moves.
pub const GAME_SPEED: u32 = 10;

/// Points for each food eaten.
pub const FOOD_SCORE: u32 = 10;

/// Draws of a food position before giving up until the next meal.
pub const MAX_FOOD_TRIES: u32 = 10000;

/// Key scancodes the game reacts to.
pub const KEY_W: u8 = 0x11;
pub const KEY_A: u8 = 0x1E;
pub const KEY_S: u8 = 0x1F;
pub const KEY_D: u8 = 0x20;
pub const KEY_Q: u8 = 0x10;

#[derive(Clone, Copy, Debug, PartialEq, Eq, Structural)]
pub enum Direction {
    Up,
    Down,
    Left,
    Right,
}

/// A cell of the board.
#[derive(Clone, Copy, Debug, PartialEq, Eq, Structural)]
pub struct Point {
    pub x: usize,
    pub y: usize,
}

/// The next value of the game's pseudo-random generator.
pub open spec fn next_seed(seed: u32) -> u32 {
    ((seed as int * 1103515245 + 12345) % 0x1_0000_0000) as u32
}

pub open spec fn on_body(body: Seq<Point>, p: Point) -> bool {
    exists|i: int| 0 <= i < body.len() && body[i] == p
}

/// Where food lands, and the generator's state afterwards: cells are drawn
/// (x from one value, y from the next) until one is off the body, at most
/// `tries` times; `None` when every draw hit the body.
pub open spec fn food_draw(seed: u32, body: Seq<Point>, tries: nat) -> (Option<Point>, u32)
    decreases tries,
{
    if tries == 0 {
        (None, seed)
    } else {
        let s1 = next_seed(seed);
        let s2 = next_seed(s1);
        let p = Point { x: (s1 % GAME_WIDTH as u32) as usize, y: (s2 % GAME_HEIGHT as u32) as usize };
        if on_body(body, p) {
            food_draw(s2, body, (tries - 1) as nat)
        } else {
            (Some(p), s2)
        }
    }
}

/// `a + b`, or the largest `u32` when that does not fit.
pub open spec fn sat_add(a: u32, b: u32) -> u32 {
    if a + b > u32::MAX {
        u32::MAX
    } else {
        (a + b) as u32
    }
}

/// The cell next to `p` in direction `d`, if it is on the board.
pub open spec fn neighbour(p: Point, d: Direction) -> Option<Point> {
    match d {
        Direction::Up => if p.y == 0 {
            None
        } else {
            Some(Point { x: p.x, y: (p.y - 1) as usize })
        },
        Direction::Down => if p.y + 1 >= GAME_HEIGHT {
            None
        } else {
            Some(Point { x: p.x, y: (p.y + 1) as usize })
        },
        Direction::Left => if p.x == 0 {
            None
        } else {
            Some(Point { x: (p.x - 1) as usize, y: p.y })
        },
        Direction::Right => if p.x + 1 >= GAME_WIDTH {
            None
        } else {
            Some(Point { x: (p.x + 1) as usize, y: p.y })
        },
    }
}

pub open spec fn opposite(d: Direction) -> Direction {
    match d {
        Direction::Up => Direction::Down,
        Direction::Down => Direction::Up,
        Direction::Left => Direction::Right,
        Direction::Right => Direction::Left,
    }
}

/// The direction a key asks for.
pub open spec fn key_direction(scancode: u8) -> Option<Direction> {
    if scancode == KEY_W {
        Some(Direction::Up)
    } else if scancode == KEY_S {
        Some(Direction::Down)
    } else if scancode == KEY_A {
        Some(Direction::Left)
    } else if scancode == KEY_D {
        Some(Direction::Right)
    } else {
        None
    }
}

pub struct SnakeView {
    pub body: Seq<Point>,
    pub direction: Direction,
    pub food: Point,
    pub score: u32,
    pub game_over: bool,
    pub seed: u32,
    pub started: bool,
    /// Tick of the last move (or of entering the game).
    pub last_tick: u32,
}

impl SnakeView {
    pub open spec fn wf(self) -> bool {
        &&& 1 <= self.body.len() <= MAX_SNAKE_LEN
        &&& forall|i: int|
            0 <= i < self.body.len() ==> (#[trigger] self.body[i]).x < GAME_WIDTH
                && self.body[i].y < GAME_HEIGHT
    }

    /// The state after a key press (`scancode` below 0x80): a turn that is
    /// not a reversal, which also starts the game; anything else changes
    /// nothing.
    pub open spec fn turned(self, scancode: u8) -> SnakeView {
        match key_direction(scancode) {
            Some(d) => if self.direction != opposite(d) {
                SnakeView { direction: d, started: true, ..self }
            } else {
                self
            },
            None => self,
        }
    }

    /// One move: whether the snake is still alive, and the new state. The
    /// head moves one cell in the current direction; leaving the board or
    /// running into the body ends the game. Reaching the food grows the
    /// snake by one cell (up to `MAX_SNAKE_LEN`), adds `FOOD_SCORE` to the
    /// score (which stops at the largest `u32`) and draws a new food cell;
    /// otherwise the tail follows.
    pub open spec fn step(self) -> (bool, SnakeView) {
        if self.game_over {
            (false, self)
        } else {
            match neighbour(self.body[0], self.direction) {
                None => (false, SnakeView { game_over: true, ..self }),
                Some(h) => if on_body(self.body, h) {
                    (false, SnakeView { game_over: true, ..self })
                } else if h == self.food {
                    let body = if self.body.len() < MAX_SNAKE_LEN {
                        seq![h] + self.body
                    } else {
                        seq![h] + self.body.drop_last()
                    };
                    let (food, seed) = food_draw(self.seed, body, MAX_FOOD_TRIES as nat);
                    (
                        true,
                        SnakeView {
                            body,
                            score: sat_add(self.score, FOOD_SCORE),
                            food: match food {
                                Some(f) => f,
                                None => self.food,
                            },
                            seed,
                            ..self
                        },
                    )
                } else {
                    (true, SnakeView { body: seq![h] + self.body.drop_last(), ..self })
                }
            }
        }
    }
}

pub struct SnakeGame {
    snake: Vec<Point>,
    direction: Direction,
    food: Point,
    score: u32,
    game_over: bool,
    seed: u32,
    started: bool,
    last_tick: u32,
}

impl View for SnakeGame {
    type V = SnakeView;

    closed spec fn view(&self) -> SnakeView {
        SnakeView {
            body: self.snake@,
            direction: self.direction,
            food: self.food,
            score: self.score,
            game_over: self.game_over,
            seed: self.seed,
            started: self.started,
            last_tick: self.last_tick,
        }
    }
}

impl SnakeGame {
    /// A three-cell snake heading right in the middle of the board.
    pub fn new() -> (r: Self)
        ensures
            r@.wf(),
            r@.body == seq![Point { x: 20, y: 10 }, Point { x: 19, y: 10 }, Point { x: 18, y: 10 }],
            r@.direction == Direction::Right,
            r@.food == (Point { x: 15, y: 10 }),
            r@.score == 0,
            !r@.game_over,
            !r@.started,
            r@.seed == 12345,
            r@.last_tick == 0,
    {
        let mut snake: Vec<Point> = Vec::new();
        snake.push(Point { x: 20, y: 10 });
        snake.push(Point { x: 19, y: 10 });
        snake.push(Point { x: 18, y: 10 });
        let r = SnakeGame {
            snake,
            direction: Direction::Right,
            food: Point { x: 15, y: 10 },
            score: 0,
            game_over: false,
            seed: 12345,
            started: false,
            last_tick: 0,
        };
        assert(r@.body =~= seq![Point { x: 20, y: 10 }, Point { x: 19, y: 10 }, Point { x: 18, y: 10 }]);
        r
    }

    pub fn snake(&self) -> (r: &[Point])
        ensures
            r@ == self@.body,
    {
        self.snake.as_slice()
    }

    pub fn food(&self) -> (r: Point)
        ensures
            r == self@.food,
    {
        self.food
    }

    pub fn score(&self) -> (r: u32)
        ensures
            r == self@.score,
    {
        self.score
    }

    pub fn started(&self) -> (r: bool)
        ensures
            r == self@.started,
    {
        self.started
    }

    pub fn is_game_over(&self) -> (r: bool)
        ensures
            r == self@.game_over,
    {
        self.game_over
    }

    /// Advances the generator and returns its new value.
    fn random(&mut self) -> (r: u32)
        ensures
            r == next_seed(old(self)@.seed),
            final(self)@ == (SnakeView { seed: r, ..old(self)@ }),
    {
        self.seed = self.seed.wrapping_mul(1103515245).wrapping_add(12345);
        proof {
            let a = old(self).seed as int * 1103515245;
            assert((((a % 0x1_0000_0000) + 12345) % 0x1_0000_0000) == (a + 12345) % 0x1_0000_0000)
                by (nonlinear_arith);
        }
        self.seed
    }

    fn is_on_snake(&self, p: Point) -> (r: bool)
        ensures
            r == on_body(self@.body, p),
    {
        let mut i: usize = 0;
        while i < self.snake.len()
            invariant
                0 <= i <= self.snake@.len(),
                forall|k: int| 0 <= k < i ==> self.snake@[k] != p,
            decreases self.snake.len() - i,
        {
            if self.snake[i].x == p.x && self.snake[i].y == p.y {
                return true;
            }
            i += 1;
        }
        false
    }

    /// Places the food on a drawn cell off the snake (see `food_draw`); the
    /// food stays put if `MAX_FOOD_TRIES` draws all hit the snake.
    fn spawn_food(&mut self)
        ensures
            final(self)@ == (SnakeView {
                food: match food_draw(old(self)@.seed, old(self)@.body, MAX_FOOD_TRIES as nat).0 {
                    Some(f) => f,
                    None => old(self)@.food,
                },
                seed: food_draw(old(self)@.seed, old(self)@.body, MAX_FOOD_TRIES as nat).1,
                ..old(self)@
            }),
    {
        let mut tries: u32 = MAX_FOOD_TRIES;
        while tries > 0
            invariant
                self@.body == old(self)@.body,
                self@ == (SnakeView { seed: self@.seed, ..old(self)@ }),
                food_draw(self@.seed, self@.body, tries as nat) == food_draw(
                    old(self)@.seed,
                    old(self)@.body,
                    MAX_FOOD_TRIES as nat,
                ),
            decreases tries,
        {
            let x = (self.random() % (GAME_WIDTH as u32)) as usize;
            let y = (self.random() % (GAME_HEIGHT as u32)) as usize;
            let p = Point { x, y };
            if !self.is_on_snake(p) {
                self.food = p;
                return;
            }
            tries -= 1;
        }
    }

    /// Applies a key press or release; returns true on the quit key.
    pub fn handle_scancode(&mut self, scancode: u8) -> (quit: bool)
        ensures
            quit == (scancode == KEY_Q),
            final(self)@ == if scancode >= 0x80 {
                old(self)@
            } else {
                old(self)@.turned(scancode)
            },
    {
        if scancode & 0x80 != 0 {
            assert(scancode & 0x80 != 0 ==> scancode >= 0x80) by (bit_vector);
            return false;
        }
        assert(scancode & 0x80 == 0 ==> scancode < 0x80) by (bit_vector);
        let wanted = if scancode == KEY_W {
            Direction::Up
        } else if scancode == KEY_S {
            Direction::Down
        } else if scancode == KEY_A {
            Direction::Left
        } else if scancode == KEY_D {
            Direction::Right
        } else {
            return scancode == KEY_Q;
        };
        let reverse = match wanted {
            Direction::Up => Direction::Down,
            Direction::Down => Direction::Up,
            Direction::Left => Direction::Right,
            Direction::Right => Direction::Left,
        };
        if self.direction != reverse {
            self.direction = wanted;
            self.started = true;
        }
        false
    }

    /// Handles every pending event, oldest first, until the buffer is empty
    /// or the quit key comes; returns whether it came. Events after the quit
    /// key stay pending.
    pub fn drain_input(&mut self, buffer: &mut ScancodeBuffer) -> (quit: bool)
        requires
            old(buffer).wf(),
        ensures
            final(buffer).wf(),
            (quit, final(buffer)@, final(self)@) == drain_keys(old(buffer)@, old(self)@),
            old(self)@.wf() ==> final(self)@.wf(),
    {
        loop
            invariant
                buffer.wf(),
                drain_keys(buffer@, self@) == drain_keys(old(buffer)@, old(self)@),
                old(self)@.wf() ==> self@.wf(),
            decreases buffer@.len(),
        {
            let ghost q = buffer@;
            match buffer.pop() {
                None => {
                    return false;
                },
                Some(sc) => {
                    assert(q[0] == sc && buffer@ == q.drop_first());
                    if self.handle_scancode(sc) {
                        return true;
                    }
                },
            }
        }
    }

    /// Starts a session: discards keys typed before the game took over and
    /// counts time from `now`.
    pub fn enter(&mut self, buffer: &mut ScancodeBuffer, now: u32)
        requires
            old(buffer).wf(),
        ensures
            final(buffer).wf(),
            final(buffer)@.len() == 0,
            final(self)@ == (SnakeView { last_tick: now, ..old(self)@ }),
    {
        buffer.flush();
        self.last_tick = now;
    }

    /// One wake-up of the game's loop at tick `now` (see `wake_outcome`).
    pub fn on_wake(&mut self, buffer: &mut ScancodeBuffer, now: u32) -> (r: SnakeAction)
        requires
            old(self)@.wf(),
            old(buffer).wf(),
        ensures
            final(self)@.wf(),
            final(buffer).wf(),
            (r, final(buffer)@, final(self)@) == wake_outcome(old(self)@, old(buffer)@, now),
    {
        if self.game_over {
            let ghost q = buffer@;
            let ghost p = quit_pred();
            let ghost mut k: int = 0;
            loop
                invariant
                    buffer.wf(),
                    self@ == old(self)@,
                    old(self)@.wf(),
                    self@.game_over,
                    q == old(buffer)@,
                    p == quit_pred(),
                    0 <= k <= q.len(),
                    buffer@ == q.skip(k),
                    forall|j: int| 0 <= j < k ==> !p(q[j]),
                decreases buffer@.len(),
            {
                proof {
                    lemma_find_first(q, p, 0);
                }
                match buffer.pop() {
                    None => {
                        assert(k == q.len());
                        return SnakeAction::Wait;
                    },
                    Some(sc) => {
                        assert(sc == q[k]);
                        if sc == KEY_Q {
                            assert(find_first(q, p, 0) == Some(k));
                            assert(buffer@ =~= q.skip(k + 1));
                            return SnakeAction::Quit;
                        }
                        proof {
                            k = k + 1;
                        }
                        assert(buffer@ =~= q.skip(k));
                    },
                }
            }
        }
        if self.drain_input(buffer) {
            return SnakeAction::Quit;
        }
        if !self.started || !ticks_elapsed(self.last_tick, now, GAME_SPEED) {
            return SnakeAction::Wait;
        }
        self.last_tick = now;
        if self.update() {
            SnakeAction::Redraw
        } else {
            SnakeAction::GameOver
        }
    }

    /// The cell the head moves to, if it stays on the board.
    fn next_head(&self) -> (r: Option<Point>)
        requires
            self@.wf(),
        ensures
            r == neighbour(self@.body[0], self@.direction),
    {
        let head = self.snake[0];
        match self.direction {
            Direction::Up => if head.y == 0 {
                None
            } else {
                Some(Point { x: head.x, y: head.y - 1 })
            },
            Direction::Down => if head.y >= GAME_HEIGHT - 1 {
                None
            } else {
                Some(Point { x: head.x, y: head.y + 1 })
            },
            Direction::Left => if head.x == 0 {
                None
            } else {
                Some(Point { x: head.x - 1, y: head.y })
            },
            Direction::Right => if head.x >= GAME_WIDTH - 1 {
                None
            } else {
                Some(Point { x: head.x + 1, y: head.y })
            },
        }
    }

    /// Moves the snake one cell; returns false when it hits a wall or itself
    /// (or the game was already over).
    pub fn update(&mut self) -> (alive: bool)
        requires
            old(self)@.wf(),
        ensures
            final(self)@.wf(),
            (alive, final(self)@) == old(self)@.step(),
    {
        if self.game_over {
            return false;
        }
        let new_head = match self.next_head() {
            None => {
                self.game_over = true;
                return false;
            },
            Some(h) => h,
        };
        if self.is_on_snake(new_head) {
            self.game_over = true;
            return false;
        }
        let ghost old_body = self@.body;
        let ate_food = new_head.x == self.food.x && new_head.y == self.food.y;
        if !(ate_food && self.snake.len() < MAX_SNAKE_LEN) {
            self.snake.pop();
        }
        self.snake.insert(0, new_head);
        let ghost body = if old_body.len() < MAX_SNAKE_LEN && ate_food {
            seq![new_head] + old_body
        } else {
            seq![new_head] + old_body.drop_last()
        };
        assert(self@.body =~= body);
        assert forall|i: int| 0 <= i < body.len() implies (#[trigger] body[i]).x < GAME_WIDTH
            && body[i].y < GAME_HEIGHT by {
            if i > 0 {
                assert(body[i] == old_body[i - 1]);
            }
        }
        if ate_food {
            assert(new_head == self.food);
            self.score = self.score.saturating_add(FOOD_SCORE);
            self.spawn_food();
        }
        true
    }
}

/// What one wake-up of the game's loop asks of the caller.
#[derive(Clone, Copy, Debug, PartialEq, Eq, Structural)]
pub enum SnakeAction {
    /// Nothing to draw; wait for the next interrupt.
    Wait,
    /// The snake moved: draw the board again.
    Redraw,
    /// The snake crashed: show the end of the game.
    GameOver,
    /// The player quit: leave the game.
    Quit,
}

/// Matches the quit key.
pub open spec fn quit_pred() -> spec_fn(u8) -> bool {
    |b: u8| b == KEY_Q
}

/// One wake-up at tick `now` with the events `q` pending: the action, the
/// events left pending and the state afterwards. After a crash, every pending
/// event up to the quit key is discarded. Otherwise the events are handled
/// (see `drain_keys`); unless the quit key came, the snake moves once when the
/// game has started and `GAME_SPEED` ticks have passed since the last move,
/// counted across the counter's wraparound.
pub open spec fn wake_outcome(s: SnakeView, q: Seq<u8>, now: u32) -> (SnakeAction, Seq<u8>, SnakeView) {
    if s.game_over {
        match find_first(q, quit_pred(), 0) {
            Some(i) => (SnakeAction::Quit, q.skip(i + 1), s),
            None => (SnakeAction::Wait, Seq::empty(), s),
        }
    } else {
        let (quit, rest, s1) = drain_keys(q, s);
        if quit {
            (SnakeAction::Quit, rest, s1)
        } else if !s1.started || ticks_between(s1.last_tick, now) < GAME_SPEED {
            (SnakeAction::Wait, rest, s1)
        } else {
            let (alive, s2) = SnakeView { last_tick: now, ..s1 }.step();
            (
                if alive {
                    SnakeAction::Redraw
                } else {
                    SnakeAction::GameOver
                },
                rest,
                s2,
            )
        }
    }
}

/// Handling the pending events `q` one by one from state `s`: whether the
/// quit key came, what is left pending, and the state afterwards.
pub open spec fn drain_keys(q: Seq<u8>, s: SnakeView) -> (bool, Seq<u8>, SnakeView)
    decreases q.len(),
{
    if q.len() == 0 {
        (false, q, s)
    } else {
        let sc = q[0];
        let s1 = if sc >= 0x80 {
            s
        } else {
            s.turned(sc)
        };
        if sc == KEY_Q {
            (true, q.drop_first(), s1)
        } else {
            drain_keys(q.drop_first(), s1)
        }
    }
}

} // verus!
