//! The line editor: a bounded text of lines with a cursor, edited by key
//! events and loaded from and saved to the file store.
use vstd::prelude::*;
use vstd::slice::slice_to_vec;
use crate::filesystem::{FileSystem, FsError, FsView, MAX_FILE_SIZE, concat_bytes};
use crate::cli::{sub_bytes, decimal, decimal_digits};
use crate::keyboard::{Keyboard, key_char};
use crate::scancode_buffer::ScancodeBuffer;

verus! {

pub const EDITOR_WIDTH: usize = 80;

/// Text rows on screen; the two rows below show the status and help.
pub const EDITOR_HEIGHT: usize = 23;

pub const MAX_LINES: usize = 100;

pub const MAX_LINE_LEN: usize = 80;

pub const MAX_EDITOR_FILENAME: usize = 32;

pub const NEWLINE: u8 = 10;

pub struct EditorView {
    pub lines: Seq<Seq<u8>>,
    pub x: int,
    pub y: int,
    pub scroll: int,
    pub modified: bool,
    pub filename: Seq<u8>,
}

pub open spec fn min(a: int, b: int) -> int {
    if a < b {
        a
    } else {
        b
    }
}

/// The lines joined with newlines, as the text is saved.
pub open spec fn join_lines(lines: Seq<Seq<u8>>) -> Seq<u8>
    decreases lines.len(),
{
    if lines.len() == 0 {
        Seq::empty()
    } else if lines.len() == 1 {
        lines[0]
    } else {
        join_lines(lines.drop_last()) + seq![NEWLINE] + lines.last()
    }
}

/// Reading the first `k` bytes of `content`: the finished lines and the
/// line in progress. A newline ends a line, bytes past `MAX_LINE_LEN` in a
/// line are dropped, and reading stops once `MAX_LINES` lines are finished.
pub open spec fn load_prefix(content: Seq<u8>, k: int) -> (Seq<Seq<u8>>, Seq<u8>)
    decreases k,
{
    if k <= 0 {
        (Seq::empty(), Seq::empty())
    } else {
        let (done, cur) = load_prefix(content, k - 1);
        if done.len() >= MAX_LINES {
            (done, cur)
        } else if content[k - 1] == NEWLINE {
            (done.push(cur), Seq::empty())
        } else if cur.len() < MAX_LINE_LEN {
            (done, cur.push(content[k - 1]))
        } else {
            (done, cur)
        }
    }
}

/// The lines of a loaded file.
pub open spec fn loaded(content: Seq<u8>) -> Seq<Seq<u8>> {
    let (done, cur) = load_prefix(content, content.len() as int);
    if done.len() < MAX_LINES {
        done.push(cur)
    } else {
        done
    }
}

impl EditorView {
    pub open spec fn wf(self) -> bool {
        &&& 1 <= self.lines.len() <= MAX_LINES
        &&& forall|i: int| 0 <= i < self.lines.len() ==> (#[trigger] self.lines[i]).len() <= MAX_LINE_LEN
        &&& 0 <= self.y < self.lines.len()
        &&& 0 <= self.x <= self.lines[self.y].len()
        &&& 0 <= self.scroll <= self.y
        &&& self.y - self.scroll < EDITOR_HEIGHT
        &&& self.filename.len() <= MAX_EDITOR_FILENAME
    }

    pub open spec fn line_len(self, i: int) -> int {
        self.lines[i].len() as int
    }

    /// Scroll after the cursor moved down to row `y`.
    pub open spec fn scroll_down_to(self, y: int) -> int {
        if y - self.scroll >= EDITOR_HEIGHT {
            self.scroll + 1
        } else {
            self.scroll
        }
    }

    pub open spec fn insert_char(self, c: u8) -> EditorView {
        if self.line_len(self.y) >= MAX_LINE_LEN {
            self
        } else {
            EditorView {
                lines: self.lines.update(self.y, self.lines[self.y].insert(self.x, c)),
                x: self.x + 1,
                modified: true,
                ..self
            }
        }
    }

    pub open spec fn insert_newline(self) -> EditorView {
        if self.lines.len() >= MAX_LINES {
            self
        } else {
            let line = self.lines[self.y];
            EditorView {
                lines: self.lines.take(self.y) + seq![line.take(self.x), line.skip(self.x)]
                    + self.lines.skip(self.y + 1),
                y: self.y + 1,
                x: 0,
                scroll: self.scroll_down_to(self.y + 1),
                modified: true,
                ..self
            }
        }
    }

    pub open spec fn backspace(self) -> EditorView {
        if self.x > 0 {
            EditorView {
                lines: self.lines.update(self.y, self.lines[self.y].remove(self.x - 1)),
                x: self.x - 1,
                modified: true,
                ..self
            }
        } else if self.y > 0 && self.line_len(self.y - 1) + self.line_len(self.y) <= MAX_LINE_LEN {
            EditorView {
                lines: self.lines.take(self.y - 1) + seq![self.lines[self.y - 1] + self.lines[self.y]]
                    + self.lines.skip(self.y + 1),
                y: self.y - 1,
                x: self.line_len(self.y - 1),
                scroll: min(self.scroll, self.y - 1),
                modified: true,
                ..self
            }
        } else {
            self
        }
    }

    pub open spec fn move_up(self) -> EditorView {
        if self.y > 0 {
            EditorView {
                y: self.y - 1,
                x: min(self.x, self.line_len(self.y - 1)),
                scroll: min(self.scroll, self.y - 1),
                ..self
            }
        } else {
            self
        }
    }

    pub open spec fn move_down(self) -> EditorView {
        if self.y + 1 < self.lines.len() {
            EditorView {
                y: self.y + 1,
                x: min(self.x, self.line_len(self.y + 1)),
                scroll: self.scroll_down_to(self.y + 1),
                ..self
            }
        } else {
            self
        }
    }

    pub open spec fn move_left(self) -> EditorView {
        if self.x > 0 {
            EditorView { x: self.x - 1, ..self }
        } else if self.y > 0 {
            EditorView {
                y: self.y - 1,
                x: self.line_len(self.y - 1),
                scroll: min(self.scroll, self.y - 1),
                ..self
            }
        } else {
            self
        }
    }

    pub open spec fn move_right(self) -> EditorView {
        if self.x < self.line_len(self.y) {
            EditorView { x: self.x + 1, ..self }
        } else if self.y + 1 < self.lines.len() {
            EditorView { y: self.y + 1, x: 0, scroll: self.scroll_down_to(self.y + 1), ..self }
        } else {
            self
        }
    }

    pub open spec fn home(self) -> EditorView {
        EditorView { x: 0, ..self }
    }

    pub open spec fn end(self) -> EditorView {
        EditorView { x: self.line_len(self.y), ..self }
    }

    pub open spec fn moved_up(self, k: nat) -> EditorView
        decreases k,
    {
        if k == 0 {
            self
        } else {
            self.moved_up((k - 1) as nat).move_up()
        }
    }

    pub open spec fn moved_down(self, k: nat) -> EditorView
        decreases k,
    {
        if k == 0 {
            self
        } else {
            self.moved_down((k - 1) as nat).move_down()
        }
    }

    /// The view after opening a file whose content is `content` (`None`:
    /// no such file) under the name `name`: the cursor at the top left.
    pub open spec fn opened(self, name: Seq<u8>, content: Option<Seq<u8>>) -> EditorView {
        EditorView {
            lines: match content {
                Some(c) => loaded(c),
                None => seq![Seq::<u8>::empty()],
            },
            x: 0,
            y: 0,
            scroll: 0,
            modified: false,
            filename: name,
        }
    }

    /// The whole text as it is saved.
    pub open spec fn text(self) -> Seq<u8> {
        join_lines(self.lines)
    }
}

/// Saving: the result, the editor and the store afterwards. A text that
/// does not fit in a file (with room for a final newline) is refused before
/// the store is touched; otherwise the store writes it under the editor's
/// file name, and a successful write clears the modified mark.
pub open spec fn save_outcome(v: EditorView, fs: FsView) -> (Result<(), FsError>, EditorView, FsView) {
    if v.text().len() >= MAX_FILE_SIZE {
        (Err(FsError::ContentTooLarge), v, fs)
    } else {
        let (r, fs2) = fs.write(v.filename, v.text());
        (
            r,
            if r is Ok {
                EditorView { modified: false, ..v }
            } else {
                v
            },
            fs2,
        )
    }
}

pub const KEY_ESC: u8 = 0x01;
pub const KEY_CTRL: u8 = 0x1D;
pub const KEY_CTRL_RELEASE: u8 = 0x9D;
pub const KEY_LEFT_SHIFT: u8 = 0x2A;
pub const KEY_RIGHT_SHIFT: u8 = 0x36;
pub const KEY_LEFT_SHIFT_RELEASE: u8 = 0xAA;
pub const KEY_RIGHT_SHIFT_RELEASE: u8 = 0xB6;
pub const KEY_S: u8 = 0x1F;
pub const KEY_Q: u8 = 0x10;
pub const KEY_UP: u8 = 0x48;
pub const KEY_DOWN: u8 = 0x50;
pub const KEY_LEFT: u8 = 0x4B;
pub const KEY_RIGHT: u8 = 0x4D;
pub const KEY_HOME: u8 = 0x47;
pub const KEY_END: u8 = 0x4F;
pub const KEY_PAGE_UP: u8 = 0x49;
pub const KEY_PAGE_DOWN: u8 = 0x51;
pub const KEY_ENTER: u8 = 0x1C;
pub const KEY_BACKSPACE: u8 = 0x0E;

/// Modifier keys held, and the quit key waiting for a second press when
/// the text has unsaved changes.
#[derive(Clone, Copy, Debug, PartialEq, Eq, Structural)]
pub struct EditorKeys {
    pub shift: bool,
    pub ctrl: bool,
    pub confirm: Option<u8>,
}

impl EditorKeys {
    pub fn new() -> (r: Self)
        ensures
            r == (EditorKeys { shift: false, ctrl: false, confirm: None }),
    {
        EditorKeys { shift: false, ctrl: false, confirm: None }
    }
}

/// What the editor's caller should do after a key event.
#[derive(Debug, PartialEq, Eq)]
pub enum EditorAction {
    Nothing,
    /// The text or the cursor changed: draw again.
    Redraw,
    /// A save was attempted with this result: report it and draw again.
    Saved(Result<(), FsError>),
    /// Unsaved changes: warn that pressing the same quit key again quits.
    ConfirmQuit,
    /// Leave the editor.
    Quit,
}

/// The editing that a key press does, if any: moves, page moves, line
/// breaks, deletion, and typing (not while control is held).
pub open spec fn edit_key(v: EditorView, sc: u8, shift: bool, ctrl: bool) -> Option<EditorView> {
    if sc == KEY_UP {
        Some(v.move_up())
    } else if sc == KEY_DOWN {
        Some(v.move_down())
    } else if sc == KEY_LEFT {
        Some(v.move_left())
    } else if sc == KEY_RIGHT {
        Some(v.move_right())
    } else if sc == KEY_HOME {
        Some(v.home())
    } else if sc == KEY_END {
        Some(v.end())
    } else if sc == KEY_PAGE_UP {
        Some(v.moved_up(EDITOR_HEIGHT as nat))
    } else if sc == KEY_PAGE_DOWN {
        Some(v.moved_down(EDITOR_HEIGHT as nat))
    } else if sc == KEY_ENTER {
        Some(v.insert_newline())
    } else if sc == KEY_BACKSPACE {
        Some(v.backspace())
    } else {
        match key_char(sc, shift) {
            Some(c) => if ctrl {
                None
            } else {
                Some(v.insert_char(c as u8))
            },
            None => None,
        }
    }
}

/// One key event: the action, the editor, the key state and the store
/// afterwards.
pub open spec fn key_outcome(v: EditorView, k: EditorKeys, sc: u8, fs: FsView) -> (
    EditorAction,
    EditorView,
    EditorKeys,
    FsView,
) {
    match k.confirm {
        Some(q) => if sc >= 0x80 {
            (EditorAction::Nothing, v, k, fs)
        } else if sc == q {
            (EditorAction::Quit, v, EditorKeys { confirm: None, ..k }, fs)
        } else {
            (EditorAction::Nothing, v, EditorKeys { confirm: None, ..k }, fs)
        },
        None => if sc >= 0x80 {
            (
                EditorAction::Nothing,
                v,
                EditorKeys {
                    shift: k.shift && sc != KEY_LEFT_SHIFT_RELEASE && sc != KEY_RIGHT_SHIFT_RELEASE,
                    ctrl: k.ctrl && sc != KEY_CTRL_RELEASE,
                    ..k
                },
                fs,
            )
        } else if sc == KEY_LEFT_SHIFT || sc == KEY_RIGHT_SHIFT {
            (EditorAction::Nothing, v, EditorKeys { shift: true, ..k }, fs)
        } else if sc == KEY_CTRL {
            (EditorAction::Nothing, v, EditorKeys { ctrl: true, ..k }, fs)
        } else if k.ctrl && sc == KEY_S {
            let (r, v2, fs2) = save_outcome(v, fs);
            (EditorAction::Saved(r), v2, k, fs2)
        } else if (k.ctrl && sc == KEY_Q) || sc == KEY_ESC {
            if v.modified {
                (EditorAction::ConfirmQuit, v, EditorKeys { confirm: Some(sc), ..k }, fs)
            } else {
                (EditorAction::Quit, v, k, fs)
            }
        } else {
            match edit_key(v, sc, k.shift, k.ctrl) {
                Some(v2) => (EditorAction::Redraw, v2, k, fs),
                None => (EditorAction::Nothing, v, k, fs),
            }
        },
    }
}

/// ` Line:` on the status line.
pub open spec fn line_label() -> Seq<u8> {
    seq![32u8, 76u8, 105u8, 110u8, 101u8, 58u8]
}

/// ` Col:` on the status line.
pub open spec fn col_label() -> Seq<u8> {
    seq![32u8, 67u8, 111u8, 108u8, 58u8]
}

pub const STAR: u8 = 42;

pub proof fn lemma_decimal_len(n: nat)
    requires
        n < 1000,
    ensures
        1 <= decimal(n).len() <= 3,
{
    reveal_with_fuel(decimal, 4);
    if n >= 10 {
        if n >= 100 {
            assert(n / 10 >= 10 && n / 10 < 100);
            assert(n / 10 / 10 < 10);
        }
    }
}

impl EditorView {
    /// The file name as the status line shows it: with `*` when modified.
    pub open spec fn shown_name(self) -> Seq<u8> {
        if self.modified {
            self.filename.push(STAR)
        } else {
            self.filename
        }
    }

    /// ` Line:<row> Col:<column>`, both counted from 1.
    pub open spec fn position_text(self) -> Seq<u8> {
        line_label() + decimal((self.y + 1) as nat) + col_label() + decimal((self.x + 1) as nat)
    }

    /// Column where the position text starts.
    pub open spec fn position_column(self) -> int {
        EDITOR_WIDTH - decimal((self.y + 1) as nat).len() - 15
    }

    /// The status line: the shown file name from column 1, the position
    /// text from `position_column`, spaces elsewhere.
    pub open spec fn status_line(self) -> Seq<u8> {
        Seq::new(
            EDITOR_WIDTH as nat,
            |i: int|
                if 1 <= i < 1 + self.shown_name().len() {
                    self.shown_name()[i - 1]
                } else if self.position_column() <= i < self.position_column()
                    + self.position_text().len() {
                    self.position_text()[i - self.position_column()]
                } else {
                    32u8
                },
        )
    }
}

pub struct Editor {
    lines: Vec<Vec<u8>>,
    cursor_x: usize,
    cursor_y: usize,
    scroll_offset: usize,
    modified: bool,
    filename: Vec<u8>,
}

impl View for Editor {
    type V = EditorView;

    closed spec fn view(&self) -> EditorView {
        EditorView {
            lines: self.lines@.map_values(|l: Vec<u8>| l@),
            x: self.cursor_x as int,
            y: self.cursor_y as int,
            scroll: self.scroll_offset as int,
            modified: self.modified,
            filename: self.filename@,
        }
    }
}

impl Editor {
    /// An empty, unnamed text of one empty line.
    pub fn new() -> (r: Self)
        ensures
            r@.wf(),
            r@.lines == seq![Seq::<u8>::empty()],
            r@.x == 0 && r@.y == 0 && r@.scroll == 0,
            !r@.modified,
            r@.filename == Seq::<u8>::empty(),
    {
        let mut lines: Vec<Vec<u8>> = Vec::new();
        lines.push(Vec::new());
        let r = Editor {
            lines,
            cursor_x: 0,
            cursor_y: 0,
            scroll_offset: 0,
            modified: false,
            filename: Vec::new(),
        };
        assert(r@.lines =~= seq![Seq::<u8>::empty()]);
        r
    }

    /// Types `c` at the cursor, unless the line is full.
    fn insert_char(&mut self, c: u8)
        requires
            old(self)@.wf(),
        ensures
            final(self)@.wf(),
            final(self)@ == old(self)@.insert_char(c),
    {
        let y = self.cursor_y;
        let x = self.cursor_x;
        if self.lines[y].len() >= MAX_LINE_LEN {
            return;
        }
        let ghost v = self@;
        let mut line = slice_to_vec(self.lines[y].as_slice());
        line.insert(x, c);
        self.lines[y] = line;
        self.cursor_x = x + 1;
        self.modified = true;
        assert(self@.lines =~= v.lines.update(y as int, v.lines[y as int].insert(x as int, c)));
        assert(self@ == v.insert_char(c));
        assert forall|i: int| 0 <= i < self@.lines.len() implies (#[trigger] self@.lines[i]).len()
            <= MAX_LINE_LEN by {
            if i != y {
                assert(self@.lines[i] == v.lines[i]);
            }
        }
    }

    /// Splits the line at the cursor; the cursor goes to the start of the
    /// new line. Nothing happens when the text has `MAX_LINES` lines.
    fn insert_newline(&mut self)
        requires
            old(self)@.wf(),
        ensures
            final(self)@.wf(),
            final(self)@ == old(self)@.insert_newline(),
    {
        if self.lines.len() >= MAX_LINES {
            return;
        }
        let ghost v = self@;
        let y = self.cursor_y;
        let x = self.cursor_x;
        let len = self.lines[y].len();
        let left = sub_bytes(self.lines[y].as_slice(), 0, x);
        let right = sub_bytes(self.lines[y].as_slice(), x, len);
        self.lines[y] = left;
        self.lines.insert(y + 1, right);
        self.cursor_y = y + 1;
        self.cursor_x = 0;
        if self.cursor_y - self.scroll_offset >= EDITOR_HEIGHT {
            self.scroll_offset = self.scroll_offset + 1;
        }
        self.modified = true;
        let ghost line = v.lines[y as int];
        assert(line.take(x as int) =~= line.subrange(0, x as int));
        assert(line.skip(x as int) =~= line.subrange(x as int, len as int));
        assert(self@.lines =~= v.lines.take(y as int) + seq![line.take(x as int), line.skip(x as int)]
            + v.lines.skip(y + 1));
        assert forall|i: int| 0 <= i < self@.lines.len() implies (#[trigger] self@.lines[i]).len()
            <= MAX_LINE_LEN by {
            if i < y {
                assert(self@.lines[i] == v.lines[i]);
            } else if i > y + 1 {
                assert(self@.lines[i] == v.lines[i - 1]);
            }
        }
    }

    /// Deletes the byte before the cursor; at the start of a line, joins it
    /// to the previous one when the two fit in one line.
    fn backspace(&mut self)
        requires
            old(self)@.wf(),
        ensures
            final(self)@.wf(),
            final(self)@ == old(self)@.backspace(),
    {
        let ghost v = self@;
        let y = self.cursor_y;
        let x = self.cursor_x;
        if x > 0 {
            let mut line = slice_to_vec(self.lines[y].as_slice());
            line.remove(x - 1);
            self.lines[y] = line;
            self.cursor_x = x - 1;
            self.modified = true;
            assert(self@.lines =~= v.lines.update(y as int, v.lines[y as int].remove(x - 1)));
            assert forall|i: int| 0 <= i < self@.lines.len() implies (#[trigger] self@.lines[i]).len()
                <= MAX_LINE_LEN by {
                if i != y {
                    assert(self@.lines[i] == v.lines[i]);
                }
            }
        } else if y > 0 {
            assert(v.lines[y - 1].len() <= MAX_LINE_LEN && v.lines[y as int].len() <= MAX_LINE_LEN);
            let prev_len = self.lines[y - 1].len();
            let curr_len = self.lines[y].len();
            if prev_len + curr_len <= MAX_LINE_LEN {
                let joined = concat_bytes(self.lines[y - 1].as_slice(), self.lines[y].as_slice());
                self.lines[y - 1] = joined;
                self.lines.remove(y);
                self.cursor_y = y - 1;
                self.cursor_x = prev_len;
                if self.cursor_y < self.scroll_offset {
                    self.scroll_offset = self.cursor_y;
                }
                self.modified = true;
                assert(self@.lines =~= v.lines.take(y - 1) + seq![
                    v.lines[y - 1] + v.lines[y as int],
                ] + v.lines.skip(y + 1));
                assert forall|i: int| 0 <= i < self@.lines.len() implies (
                #[trigger] self@.lines[i]).len() <= MAX_LINE_LEN by {
                    if i < y - 1 {
                        assert(self@.lines[i] == v.lines[i]);
                    } else if i >= y {
                        assert(self@.lines[i] == v.lines[i + 1]);
                    }
                }
            }
        }
    }

    fn move_up(&mut self)
        requires
            old(self)@.wf(),
        ensures
            final(self)@.wf(),
            final(self)@ == old(self)@.move_up(),
    {
        if self.cursor_y > 0 {
            self.cursor_y -= 1;
            let line_len = self.lines[self.cursor_y].len();
            if self.cursor_x > line_len {
                self.cursor_x = line_len;
            }
            if self.cursor_y < self.scroll_offset {
                self.scroll_offset = self.cursor_y;
            }
        }
    }

    fn move_down(&mut self)
        requires
            old(self)@.wf(),
        ensures
            final(self)@.wf(),
            final(self)@ == old(self)@.move_down(),
    {
        if self.cursor_y + 1 < self.lines.len() {
            self.cursor_y += 1;
            let line_len = self.lines[self.cursor_y].len();
            if self.cursor_x > line_len {
                self.cursor_x = line_len;
            }
            if self.cursor_y - self.scroll_offset >= EDITOR_HEIGHT {
                self.scroll_offset += 1;
            }
        }
    }

    fn move_left(&mut self)
        requires
            old(self)@.wf(),
        ensures
            final(self)@.wf(),
            final(self)@ == old(self)@.move_left(),
    {
        if self.cursor_x > 0 {
            self.cursor_x -= 1;
        } else if self.cursor_y > 0 {
            self.cursor_y -= 1;
            self.cursor_x = self.lines[self.cursor_y].len();
            if self.cursor_y < self.scroll_offset {
                self.scroll_offset = self.cursor_y;
            }
        }
    }

    fn move_right(&mut self)
        requires
            old(self)@.wf(),
        ensures
            final(self)@.wf(),
            final(self)@ == old(self)@.move_right(),
    {
        let line_len = self.lines[self.cursor_y].len();
        if self.cursor_x < line_len {
            self.cursor_x += 1;
        } else if self.cursor_y + 1 < self.lines.len() {
            self.cursor_y += 1;
            self.cursor_x = 0;
            if self.cursor_y - self.scroll_offset >= EDITOR_HEIGHT {
                self.scroll_offset += 1;
            }
        }
    }

    fn home(&mut self)
        requires
            old(self)@.wf(),
        ensures
            final(self)@.wf(),
            final(self)@ == old(self)@.home(),
    {
        self.cursor_x = 0;
    }

    fn end(&mut self)
        requires
            old(self)@.wf(),
        ensures
            final(self)@.wf(),
            final(self)@ == old(self)@.end(),
    {
        self.cursor_x = self.lines[self.cursor_y].len();
    }

    fn page_up(&mut self)
        requires
            old(self)@.wf(),
        ensures
            final(self)@.wf(),
            final(self)@ == old(self)@.moved_up(EDITOR_HEIGHT as nat),
    {
        let mut k: usize = 0;
        while k < EDITOR_HEIGHT
            invariant
                0 <= k <= EDITOR_HEIGHT,
                self@.wf(),
                self@ == old(self)@.moved_up(k as nat),
            decreases EDITOR_HEIGHT - k,
        {
            self.move_up();
            k += 1;
        }
    }

    fn page_down(&mut self)
        requires
            old(self)@.wf(),
        ensures
            final(self)@.wf(),
            final(self)@ == old(self)@.moved_down(EDITOR_HEIGHT as nat),
    {
        let mut k: usize = 0;
        while k < EDITOR_HEIGHT
            invariant
                0 <= k <= EDITOR_HEIGHT,
                self@.wf(),
                self@ == old(self)@.moved_down(k as nat),
            decreases EDITOR_HEIGHT - k,
        {
            self.move_down();
            k += 1;
        }
    }

    /// Splits `content` into lines (see `loaded`).
    fn load_content(content: &[u8]) -> (r: Vec<Vec<u8>>)
        ensures
            r@.map_values(|l: Vec<u8>| l@) == loaded(content@),
            1 <= r@.len() <= MAX_LINES,
            forall|i: int| 0 <= i < r@.len() ==> (#[trigger] r@[i])@.len() <= MAX_LINE_LEN,
    {
        let mut done: Vec<Vec<u8>> = Vec::new();
        let mut cur: Vec<u8> = Vec::new();
        let mut k: usize = 0;
        while k < content.len()
            invariant
                0 <= k <= content@.len(),
                (done@.map_values(|l: Vec<u8>| l@), cur@) == load_prefix(content@, k as int),
                done@.len() <= MAX_LINES,
                cur@.len() <= MAX_LINE_LEN,
                forall|i: int| 0 <= i < done@.len() ==> (#[trigger] done@[i])@.len() <= MAX_LINE_LEN,
            decreases content.len() - k,
        {
            let ghost d0 = done@.map_values(|l: Vec<u8>| l@);
            if done.len() < MAX_LINES {
                let byte = content[k];
                if byte == NEWLINE {
                    let finished = slice_to_vec(cur.as_slice());
                    cur = Vec::new();
                    done.push(finished);
                    assert(done@.map_values(|l: Vec<u8>| l@) =~= d0.push(
                        load_prefix(content@, k as int).1,
                    ));
                } else if cur.len() < MAX_LINE_LEN {
                    cur.push(byte);
                }
            }
            k += 1;
        }
        if done.len() < MAX_LINES {
            let ghost d0 = done@.map_values(|l: Vec<u8>| l@);
            done.push(cur);
            assert(done@.map_values(|l: Vec<u8>| l@) =~= d0.push(
                load_prefix(content@, content@.len() as int).1,
            ));
        }
        done
    }

    /// Opens the file `filename` of the store's current directory: its text
    /// when it exists, else one empty line. The cursor starts at the top.
    pub fn open(&mut self, filename: &[u8], fs: &FileSystem) -> (r: Result<(), FsError>)
        requires
            old(self)@.wf(),
            fs.wf(),
        ensures
            final(self)@.wf(),
            filename@.len() > MAX_EDITOR_FILENAME ==> r == Err::<(), FsError>(FsError::NameTooLong)
                && final(self)@ == old(self)@,
            filename@.len() <= MAX_EDITOR_FILENAME ==> r is Ok && final(self)@ == old(self)@.opened(
                filename@,
                fs@.read(filename@),
            ),
    {
        if filename.len() > MAX_EDITOR_FILENAME {
            return Err(FsError::NameTooLong);
        }
        self.filename = slice_to_vec(filename);
        match fs.read_file(filename) {
            Some(content) => {
                self.lines = Self::load_content(content);
            },
            None => {
                let mut lines: Vec<Vec<u8>> = Vec::new();
                lines.push(Vec::new());
                self.lines = lines;
                assert(self@.lines =~= seq![Seq::<u8>::empty()]);
            },
        }
        self.cursor_x = 0;
        self.cursor_y = 0;
        self.scroll_offset = 0;
        self.modified = false;
        Ok(())
    }

    /// The text joined with newlines.
    fn text_bytes(&self) -> (r: Vec<u8>)
        requires
            self@.wf(),
        ensures
            r@ == self@.text(),
    {
        let ghost lines = self@.lines;
        let mut out: Vec<u8> = Vec::new();
        let mut i: usize = 0;
        while i < self.lines.len()
            invariant
                0 <= i <= self@.lines.len(),
                lines == self@.lines,
                out@ == join_lines(lines.take(i as int)),
            decreases self.lines.len() - i,
        {
            if i > 0 {
                out.push(NEWLINE);
            }
            out = concat_bytes(out.as_slice(), self.lines[i].as_slice());
            i += 1;
            let ghost t = lines.take(i as int);
            assert(t.drop_last() =~= lines.take(i - 1));
            if i == 1 {
                assert(join_lines(lines.take(0)) =~= Seq::<u8>::empty());
                assert(out@ =~= lines[0]);
            }
        }
        assert(lines.take(lines.len() as int) =~= lines);
        out
    }

    /// Saves the text to the store under the editor's file name.
    pub fn save(&mut self, fs: &mut FileSystem) -> (r: Result<(), FsError>)
        requires
            old(self)@.wf(),
            old(fs).wf(),
        ensures
            final(self)@.wf(),
            final(fs).wf(),
            (r, final(self)@, final(fs)@) == save_outcome(old(self)@, old(fs)@),
    {
        let text = self.text_bytes();
        if text.len() >= MAX_FILE_SIZE {
            return Err(FsError::ContentTooLarge);
        }
        let r = fs.write_file(self.filename.as_slice(), text.as_slice());
        if r.is_ok() {
            self.modified = false;
        }
        r
    }

    /// Takes over the keyboard: discards every key typed before the editor
    /// took over, so none of it reaches the text.
    pub fn enter(&mut self, buffer: &mut ScancodeBuffer)
        requires
            old(buffer).wf(),
        ensures
            final(buffer).wf(),
            final(buffer)@.len() == 0,
            final(self)@ == old(self)@,
    {
        buffer.flush();
    }

    /// Handles one key event of the editing session.
    pub fn handle_key(&mut self, keys: &mut EditorKeys, scancode: u8, fs: &mut FileSystem) -> (r:
        EditorAction)
        requires
            old(self)@.wf(),
            old(fs).wf(),
        ensures
            final(self)@.wf(),
            final(fs).wf(),
            (r, final(self)@, *final(keys), final(fs)@) == key_outcome(
                old(self)@,
                *old(keys),
                scancode,
                old(fs)@,
            ),
    {
        let release = scancode & 0x80 != 0;
        assert(release == (scancode >= 0x80)) by (bit_vector)
            requires
                release == (scancode & 0x80 != 0),
        ;
        if let Some(q) = keys.confirm {
            if release {
                return EditorAction::Nothing;
            }
            keys.confirm = None;
            if scancode == q {
                return EditorAction::Quit;
            }
            return EditorAction::Nothing;
        }
        if release {
            if scancode == KEY_LEFT_SHIFT_RELEASE || scancode == KEY_RIGHT_SHIFT_RELEASE {
                keys.shift = false;
            }
            if scancode == KEY_CTRL_RELEASE {
                keys.ctrl = false;
            }
            return EditorAction::Nothing;
        }
        if scancode == KEY_LEFT_SHIFT || scancode == KEY_RIGHT_SHIFT {
            keys.shift = true;
            return EditorAction::Nothing;
        }
        if scancode == KEY_CTRL {
            keys.ctrl = true;
            return EditorAction::Nothing;
        }
        if keys.ctrl && scancode == KEY_S {
            return EditorAction::Saved(self.save(fs));
        }
        if (keys.ctrl && scancode == KEY_Q) || scancode == KEY_ESC {
            if self.modified {
                keys.confirm = Some(scancode);
                return EditorAction::ConfirmQuit;
            }
            return EditorAction::Quit;
        }
        if scancode == KEY_UP {
            self.move_up();
        } else if scancode == KEY_DOWN {
            self.move_down();
        } else if scancode == KEY_LEFT {
            self.move_left();
        } else if scancode == KEY_RIGHT {
            self.move_right();
        } else if scancode == KEY_HOME {
            self.home();
        } else if scancode == KEY_END {
            self.end();
        } else if scancode == KEY_PAGE_UP {
            self.page_up();
        } else if scancode == KEY_PAGE_DOWN {
            self.page_down();
        } else if scancode == KEY_ENTER {
            self.insert_newline();
        } else if scancode == KEY_BACKSPACE {
            self.backspace();
        } else {
            match Keyboard::scancode_to_char(scancode, keys.shift) {
                Some(c) => {
                    if keys.ctrl {
                        return EditorAction::Nothing;
                    }
                    self.insert_char(c as u8);
                },
                None => {
                    return EditorAction::Nothing;
                },
            }
        }
        EditorAction::Redraw
    }

    /// The status line shown below the text.
    pub fn status_line(&self) -> (r: Vec<u8>)
        requires
            self@.wf(),
        ensures
            r@ == self@.status_line(),
    {
        let ghost v = self@;
        let mut name: Vec<u8> = slice_to_vec(self.filename.as_slice());
        if self.modified {
            name.push(STAR);
        }
        let line_no = decimal_digits(self.cursor_y + 1);
        let col_no = decimal_digits(self.cursor_x + 1);
        proof {
            lemma_decimal_len((v.y + 1) as nat);
            lemma_decimal_len((v.x + 1) as nat);
        }
        let mut pos: Vec<u8> = Vec::new();
        pos.push(32u8);
        pos.push(76u8);
        pos.push(105u8);
        pos.push(110u8);
        pos.push(101u8);
        pos.push(58u8);
        pos = concat_bytes(pos.as_slice(), line_no.as_slice());
        pos.push(32u8);
        pos.push(67u8);
        pos.push(111u8);
        pos.push(108u8);
        pos.push(58u8);
        pos = concat_bytes(pos.as_slice(), col_no.as_slice());
        let ghost want_name = v.shown_name();
        let ghost want_pos = v.position_text();
        assert(name@ =~= want_name);
        assert(pos@ =~= want_pos);
        let start = EDITOR_WIDTH - line_no.len() - 15;
        let mut r: Vec<u8> = Vec::new();
        let mut i: usize = 0;
        while i < EDITOR_WIDTH
            invariant
                0 <= i <= EDITOR_WIDTH,
                v == self@,
                want_name == v.shown_name(),
                want_pos == v.position_text(),
                name@ == want_name,
                pos@ == want_pos,
                name@.len() <= MAX_EDITOR_FILENAME + 1,
                pos@.len() <= 17,
                start == v.position_column(),
                r@ == v.status_line().take(i as int),
            decreases EDITOR_WIDTH - i,
        {
            let b = if 1 <= i && i < 1 + name.len() {
                name[i - 1]
            } else if start <= i && i < start + pos.len() {
                pos[i - start]
            } else {
                32u8
            };
            assert(b == v.status_line()[i as int]);
            let ghost before = r@;
            r.push(b);
            i += 1;
            assert(r@ =~= before.push(b));
            assert(v.status_line().take(i as int) =~= v.status_line().take(i - 1).push(b));
        }
        assert(r@ =~= v.status_line());
        r
    }

    pub fn cursor_x(&self) -> (r: usize)
        ensures
            r == self@.x,
    {
        self.cursor_x
    }

    pub fn cursor_y(&self) -> (r: usize)
        ensures
            r == self@.y,
    {
        self.cursor_y
    }

    pub fn scroll_offset(&self) -> (r: usize)
        ensures
            r == self@.scroll,
    {
        self.scroll_offset
    }

    pub fn is_modified(&self) -> (r: bool)
        ensures
            r == self@.modified,
    {
        self.modified
    }

    pub fn filename(&self) -> (r: &[u8])
        ensures
            r@ == self@.filename,
    {
        self.filename.as_slice()
    }

    pub fn num_lines(&self) -> (r: usize)
        ensures
            r == self@.lines.len(),
    {
        self.lines.len()
    }

    /// The text of line `i`.
    pub fn line(&self, i: usize) -> (r: &[u8])
        requires
            i < self@.lines.len(),
        ensures
            r@ == self@.lines[i as int],
    {
        self.lines[i].as_slice()
    }
}

} // verus!
