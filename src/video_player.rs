//! Playback state of a text-mode video: which frame is shown, pausing and
//! seeking from the keyboard, and where each frame lies in the frame data.
use vstd::prelude::*;
use crate::scancode_buffer::ScancodeBuffer;
use crate::timer::{ticks_between, ticks_elapsed};

verus! {

/// Timer ticks per second.
pub const TICKS_PER_SECOND: u32 = 100;

/// Frames skipped by one seek.
pub const SEEK_STEP: usize = 10;

pub const KEY_QUIT: u8 = 0x10;
pub const KEY_PAUSE: u8 = 0x39;
pub const KEY_BACK: u8 = 0x4B;
pub const KEY_FORWARD: u8 = 0x4D;
pub const KEY_RESTART: u8 = 0x47;

/// Frame shown and whether playing, after the key `sc` (a press or a
/// release) in a video of `count` frames.
pub open spec fn key_effect(current: int, playing: bool, count: int, sc: u8) -> (int, bool) {
    if sc >= 0x80 || sc == KEY_QUIT {
        (current, playing)
    } else if sc == KEY_PAUSE {
        (current, !playing)
    } else if sc == KEY_BACK {
        (
            if current > SEEK_STEP {
                current - SEEK_STEP
            } else {
                0
            },
            playing,
        )
    } else if sc == KEY_FORWARD {
        (
            if current + SEEK_STEP < count - 1 {
                current + SEEK_STEP
            } else {
                count - 1
            },
            playing,
        )
    } else if sc == KEY_RESTART {
        (0, playing)
    } else {
        (current, playing)
    }
}

/// Handling the pending events `q` one by one: whether the quit key came,
/// what is left pending, and the frame and playing state afterwards.
pub open spec fn drain_video_keys(q: Seq<u8>, current: int, playing: bool, count: int) -> (
    bool,
    Seq<u8>,
    int,
    bool,
)
    decreases q.len(),
{
    if q.len() == 0 {
        (false, q, current, playing)
    } else if q[0] == KEY_QUIT {
        (true, q.drop_first(), current, playing)
    } else {
        let (c1, p1) = key_effect(current, playing, count, q[0]);
        drain_video_keys(q.drop_first(), c1, p1, count)
    }
}

pub struct VideoPlayer {
    current_frame: usize,
    playing: bool,
    frame_data: &'static [u8],
    frame_count: usize,
    frame_width: usize,
    frame_height: usize,
    target_fps: u32,
    last_tick: u32,
}

/// What one wake-up of the player's loop asks of the caller.
#[derive(Clone, Copy, Debug, PartialEq, Eq, Structural)]
pub enum VideoAction {
    /// Nothing to draw; wait for the next interrupt.
    Wait,
    /// Draw this frame and the progress bar.
    Show(usize),
    /// The viewer quit: leave the player.
    Quit,
}

/// The frame after `current` in a video of `count` frames, back to the
/// first after the last.
pub open spec fn next_frame(current: int, count: int) -> int {
    if current + 1 >= count {
        0
    } else {
        current + 1
    }
}

impl VideoPlayer {
    /// Tick at which the last frame was shown (or the player entered).
    pub closed spec fn last(&self) -> u32 {
        self.last_tick
    }

    pub closed spec fn current(&self) -> int {
        self.current_frame as int
    }

    pub closed spec fn is_playing(&self) -> bool {
        self.playing
    }

    pub closed spec fn frames(&self) -> Seq<u8> {
        self.frame_data@
    }

    pub closed spec fn count(&self) -> int {
        self.frame_count as int
    }

    pub closed spec fn width(&self) -> int {
        self.frame_width as int
    }

    pub closed spec fn height(&self) -> int {
        self.frame_height as int
    }

    pub closed spec fn fps(&self) -> int {
        self.target_fps as int
    }

    pub open spec fn wf(&self) -> bool {
        &&& 0 <= self.current() < self.count()
        &&& self.fps() > 0
    }

    /// A player at the first frame, playing. It needs at least one frame
    /// and a frame rate above zero.
    pub fn new(
        frame_data: &'static [u8],
        frame_count: usize,
        frame_width: usize,
        frame_height: usize,
        target_fps: u32,
    ) -> (r: Self)
        requires
            frame_count > 0,
            target_fps > 0,
        ensures
            r.wf(),
            r.current() == 0,
            r.is_playing(),
            r.frames() == frame_data@,
            r.count() == frame_count,
            r.width() == frame_width,
            r.height() == frame_height,
            r.fps() == target_fps,
    {
        VideoPlayer {
            current_frame: 0,
            playing: true,
            frame_data,
            frame_count,
            frame_width,
            frame_height,
            target_fps,
            last_tick: 0,
        }
    }

    pub fn current_frame(&self) -> (r: usize)
        ensures
            r == self.current(),
    {
        self.current_frame
    }

    pub fn playing(&self) -> (r: bool)
        ensures
            r == self.is_playing(),
    {
        self.playing
    }

    pub fn frame_count(&self) -> (r: usize)
        ensures
            r == self.count(),
    {
        self.frame_count
    }

    pub fn frame_width(&self) -> (r: usize)
        ensures
            r == self.width(),
    {
        self.frame_width
    }

    pub fn frame_height(&self) -> (r: usize)
        ensures
            r == self.height(),
    {
        self.frame_height
    }

    /// Timer ticks that each frame stays on screen.
    pub fn ticks_per_frame(&self) -> (r: u32)
        requires
            self.wf(),
        ensures
            r as int == TICKS_PER_SECOND as int / self.fps(),
    {
        TICKS_PER_SECOND / self.target_fps
    }

    /// The bytes of frame `index`: `width * height` of them, one per cell,
    /// when the frame exists and the data holds all of it.
    pub fn get_frame_data(&self, index: usize) -> (r: Option<&[u8]>)
        ensures
            ({
                let size = self.width() * self.height();
                let start = index * size;
                match r {
                    Some(s) => index < self.count() && start + size <= self.frames().len() && s@
                        == self.frames().subrange(start, start + size),
                    None => !(index < self.count() && start + size <= self.frames().len()),
                }
            }),
    {
        if index >= self.frame_count {
            return None;
        }
        let data_len = self.frame_data.len();
        let ghost size = self.width() * self.height();
        let ghost len = data_len as int;
        proof {
            assert(index as int * size >= 0) by (nonlinear_arith)
                requires
                    size == self.width() * self.height(),
                    self.width() >= 0,
                    self.height() >= 0,
            ;
        }
        let frame_size = match self.frame_width.checked_mul(self.frame_height) {
            Some(s) => s,
            None => {
                assert(size > len);
                assert(index as int * size + size > len);
                return None;
            },
        };
        assert(frame_size == size);
        let start = match index.checked_mul(frame_size) {
            Some(s) => s,
            None => {
                assert(index as int * size > len);
                return None;
            },
        };
        if start > self.frame_data.len() || frame_size > self.frame_data.len() - start {
            return None;
        }
        Some(&self.frame_data[start..start + frame_size])
    }

    /// Applies a key event; returns whether it was the quit key. Releases
    /// are ignored.
    pub fn handle_scancode(&mut self, scancode: u8) -> (quit: bool)
        requires
            old(self).wf(),
        ensures
            final(self).wf(),
            quit == (scancode == KEY_QUIT),
            (final(self).current(), final(self).is_playing()) == key_effect(
                old(self).current(),
                old(self).is_playing(),
                old(self).count(),
                scancode,
            ),
            final(self).frames() == old(self).frames(),
            final(self).count() == old(self).count(),
            final(self).width() == old(self).width(),
            final(self).height() == old(self).height(),
            final(self).fps() == old(self).fps(),
            final(self).last() == old(self).last(),
    {
        if scancode & 0x80 != 0 {
            assert(scancode & 0x80 != 0 ==> scancode >= 0x80) by (bit_vector);
            return false;
        }
        assert(scancode & 0x80 == 0 ==> scancode < 0x80) by (bit_vector);
        if scancode == KEY_QUIT {
            return true;
        }
        if scancode == KEY_PAUSE {
            self.playing = !self.playing;
        } else if scancode == KEY_BACK {
            if self.current_frame > SEEK_STEP {
                self.current_frame -= SEEK_STEP;
            } else {
                self.current_frame = 0;
            }
        } else if scancode == KEY_FORWARD {
            let last = self.frame_count - 1;
            if last > self.current_frame && last - self.current_frame > SEEK_STEP {
                self.current_frame = self.current_frame + SEEK_STEP;
            } else {
                self.current_frame = last;
            }
        } else if scancode == KEY_RESTART {
            self.current_frame = 0;
        }
        false
    }

    /// Handles every pending event, oldest first, until the buffer is empty
    /// or the quit key comes; returns whether it came. Events after the quit
    /// key stay pending.
    pub fn drain_input(&mut self, buffer: &mut ScancodeBuffer) -> (quit: bool)
        requires
            old(self).wf(),
            old(buffer).wf(),
        ensures
            final(self).wf(),
            final(buffer).wf(),
            (quit, final(buffer)@, final(self).current(), final(self).is_playing())
                == drain_video_keys(
                old(buffer)@,
                old(self).current(),
                old(self).is_playing(),
                old(self).count(),
            ),
            final(self).frames() == old(self).frames(),
            final(self).count() == old(self).count(),
            final(self).width() == old(self).width(),
            final(self).height() == old(self).height(),
            final(self).fps() == old(self).fps(),
            final(self).last() == old(self).last(),
    {
        loop
            invariant
                self.wf(),
                buffer.wf(),
                drain_video_keys(buffer@, self.current(), self.is_playing(), self.count())
                    == drain_video_keys(
                    old(buffer)@,
                    old(self).current(),
                    old(self).is_playing(),
                    old(self).count(),
                ),
                self.frames() == old(self).frames(),
                self.count() == old(self).count(),
                self.width() == old(self).width(),
                self.height() == old(self).height(),
                self.fps() == old(self).fps(),
                self.last() == old(self).last(),
            decreases buffer@.len(),
        {
            let ghost q = buffer@;
            match buffer.pop() {
                None => {
                    return false;
                },
                Some(sc) => {
                    assert(q[0] == sc && buffer@ == q.drop_first());
                    if self.handle_scancode(sc) {
                        return true;
                    }
                },
            }
        }
    }

    /// How many of the `width` cells of the progress bar are filled: the
    /// share of frames before the current one, rounded down.
    pub fn progress_cells(&self, width: usize) -> (r: usize)
        requires
            self.wf(),
        ensures
            r as int == self.current() * (width as int) / self.count(),
            r <= width,
    {
        let cur = self.current_frame as u128;
        let w = width as u128;
        let n = self.frame_count as u128;
        proof {
            let (c, wi, ni) = (cur as int, w as int, n as int);
            assert(c * wi <= ni * wi) by (nonlinear_arith)
                requires
                    0 <= c < ni,
                    wi >= 0,
            ;
            assert(c * wi / ni <= wi) by (nonlinear_arith)
                requires
                    0 <= c * wi <= ni * wi,
                    ni > 0,
            ;
            assert(c * wi <= 0xffff_ffff_ffff_ffff * 0xffff_ffff_ffff_ffff) by (nonlinear_arith)
                requires
                    0 <= c <= 0xffff_ffff_ffff_ffff,
                    0 <= wi <= 0xffff_ffff_ffff_ffff,
            ;
        }
        let r = (cur * w) / n;
        r as usize
    }

    /// Starts playback: discards keys typed before the player took over and
    /// counts time from `now`.
    pub fn enter(&mut self, buffer: &mut ScancodeBuffer, now: u32)
        requires
            old(self).wf(),
            old(buffer).wf(),
        ensures
            final(self).wf(),
            final(buffer).wf(),
            final(buffer)@.len() == 0,
            final(self).last() == now,
            final(self).current() == old(self).current(),
            final(self).is_playing() == old(self).is_playing(),
            final(self).frames() == old(self).frames(),
            final(self).count() == old(self).count(),
            final(self).width() == old(self).width(),
            final(self).height() == old(self).height(),
            final(self).fps() == old(self).fps(),
    {
        buffer.flush();
        self.last_tick = now;
    }

    /// One wake-up of the player's loop at tick `now`: handles the pending
    /// keys (see `drain_video_keys`); unless the quit key came, when playing
    /// and `TICKS_PER_SECOND / fps` ticks have passed since the last frame
    /// (across the counter's wraparound), asks for the current frame to be
    /// shown and moves to the next.
    pub fn on_wake(&mut self, buffer: &mut ScancodeBuffer, now: u32) -> (r: VideoAction)
        requires
            old(self).wf(),
            old(buffer).wf(),
        ensures
            final(self).wf(),
            final(buffer).wf(),
            ({
                let (quit, rest, c1, p1) = drain_video_keys(
                    old(buffer)@,
                    old(self).current(),
                    old(self).is_playing(),
                    old(self).count(),
                );
                let due = p1 && ticks_between(old(self).last(), now) >= TICKS_PER_SECOND as int
                    / old(self).fps();
                &&& final(buffer)@ == rest
                &&& final(self).is_playing() == p1
                &&& quit ==> r == VideoAction::Quit && final(self).current() == c1
                    && final(self).last() == old(self).last()
                &&& !quit && !due ==> r == VideoAction::Wait && final(self).current() == c1
                    && final(self).last() == old(self).last()
                &&& !quit && due ==> r == VideoAction::Show(c1 as usize) && final(self).current()
                    == next_frame(c1, old(self).count()) && final(self).last() == now
            }),
            final(self).frames() == old(self).frames(),
            final(self).count() == old(self).count(),
            final(self).width() == old(self).width(),
            final(self).height() == old(self).height(),
            final(self).fps() == old(self).fps(),
    {
        if self.drain_input(buffer) {
            return VideoAction::Quit;
        }
        let period = self.ticks_per_frame();
        if self.playing && ticks_elapsed(self.last_tick, now, period) {
            self.last_tick = now;
            let shown = self.current_frame;
            self.advance();
            VideoAction::Show(shown)
        } else {
            VideoAction::Wait
        }
    }

    /// Moves to the next frame, back to the first after the last.
    pub fn advance(&mut self)
        requires
            old(self).wf(),
        ensures
            final(self).wf(),
            final(self).current() == if old(self).current() + 1 >= old(self).count() {
                0
            } else {
                old(self).current() + 1
            },
            final(self).is_playing() == old(self).is_playing(),
            final(self).frames() == old(self).frames(),
            final(self).count() == old(self).count(),
            final(self).width() == old(self).width(),
            final(self).height() == old(self).height(),
            final(self).fps() == old(self).fps(),
            final(self).last() == old(self).last(),
    {
        self.current_frame += 1;
        if self.current_frame >= self.frame_count {
            self.current_frame = 0;
        }
    }
}

/// Attribute of a frame character: darker for sparse characters, white for
/// dense ones.
pub fn frame_color(ch: u8) -> (r: u8)
    ensures
        r == if ch == 32 || ch == 46 {
            0x08u8
        } else if ch == 61 || ch == 43 || ch == 42 || ch == 35 || ch == 37 || ch == 64 {
            0x0Fu8
        } else {
            0x07u8
        },
{
    match ch {
        32 | 46 => 0x08,
        58 | 45 => 0x07,
        61 | 43 => 0x0F,
        42 | 35 => 0x0F,
        37 | 64 => 0x0F,
        _ => 0x07,
    }
}

} // verus!
