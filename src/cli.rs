//! The shell: line editing on key events, and the reading of a submitted
//! line as a command.
use vstd::prelude::*;
use vstd::slice::slice_to_vec;
use vstd::string::StringSliceAdditionalSpecFns;
use crate::filesystem::{
    bytes_eq, EntryView, FileIterator, FileSystem, FsError, FsView, MAX_PATH_LEN, find_first,
};
use crate::keyboard::{Keyboard, key_char};
use crate::scancode_buffer::ScancodeBuffer;
use crate::vga_colors::Color;
use crate::writer::{Writer, WriterView};

verus! {

/// Longest command line; further characters are dropped.
pub const MAX_COMMAND_LEN: usize = 80;

pub const KEY_ENTER: u8 = 0x1C;
pub const KEY_BACKSPACE: u8 = 0x0E;
pub const KEY_LEFT_SHIFT: u8 = 0x2A;
pub const KEY_RIGHT_SHIFT: u8 = 0x36;
pub const KEY_LEFT_SHIFT_RELEASE: u8 = 0xAA;
pub const KEY_RIGHT_SHIFT_RELEASE: u8 = 0xB6;

/// Text of the prompt.
pub const PROMPT: &'static str = "HexiumOS> ";

/// What the screen should show after a key event.
#[derive(Debug, PartialEq, Eq)]
pub enum LineEvent {
    /// Nothing visible changed.
    Nothing,
    /// This byte was added at the end of the line.
    Echo(u8),
    /// The last byte of the line was removed.
    Erase,
    /// The line was submitted; the editor is empty again.
    Submit(Vec<u8>),
}

pub struct CLI {
    buffer: Vec<u8>,
    shift_pressed: bool,
}

impl CLI {
    /// The line typed so far.
    pub closed spec fn line(&self) -> Seq<u8> {
        self.buffer@
    }

    pub closed spec fn shift(&self) -> bool {
        self.shift_pressed
    }

    pub fn new() -> (r: Self)
        ensures
            r.line() == Seq::<u8>::empty(),
            !r.shift(),
    {
        CLI { buffer: Vec::new(), shift_pressed: false }
    }

    /// Takes over the keyboard: discards every key typed before the shell
    /// took over.
    pub fn enter(&mut self, buffer: &mut ScancodeBuffer)
        requires
            old(buffer).wf(),
        ensures
            final(buffer).wf(),
            final(buffer)@.len() == 0,
            final(self).line() == old(self).line(),
            final(self).shift() == old(self).shift(),
    {
        buffer.flush();
    }

    /// Writes the prompt in light green, then returns to white on black.
    pub fn show_prompt(&self, writer: &mut Writer)
        requires
            old(writer)@.wf(),
        ensures
            final(writer)@.wf(),
            final(writer)@ == (WriterView {
                color: (Color::Black.index() * 16 + Color::White.index()) as u8,
                ..(WriterView {
                    color: (Color::Black.index() * 16 + Color::LightGreen.index()) as u8,
                    ..old(writer)@
                }).put_bytes(PROMPT.spec_bytes())
            }),
    {
        writer.set_color(Color::LightGreen, Color::Black);
        writer.write_str(PROMPT);
        writer.set_color(Color::White, Color::Black);
    }

    /// Applies one key event to the line being typed.
    pub fn handle_scancode(&mut self, scancode: u8) -> (r: LineEvent)
        requires
            old(self).line().len() <= MAX_COMMAND_LEN,
        ensures
            final(self).line().len() <= MAX_COMMAND_LEN,
            scancode >= 0x80 ==> {
                &&& final(self).line() == old(self).line()
                &&& final(self).shift() == (old(self).shift() && scancode != KEY_LEFT_SHIFT_RELEASE
                    && scancode != KEY_RIGHT_SHIFT_RELEASE)
                &&& r == LineEvent::Nothing
            },
            scancode == KEY_LEFT_SHIFT || scancode == KEY_RIGHT_SHIFT ==> final(self).shift()
                && final(self).line() == old(self).line() && r == LineEvent::Nothing,
            scancode == KEY_ENTER ==> final(self).line() == Seq::<u8>::empty() && final(self).shift()
                == old(self).shift() && (r matches LineEvent::Submit(l) && l@ == old(self).line()),
            scancode == KEY_BACKSPACE ==> final(self).shift() == old(self).shift() && if old(
                self,
            ).line().len() > 0 {
                final(self).line() == old(self).line().drop_last() && r == LineEvent::Erase
            } else {
                final(self).line() == old(self).line() && r == LineEvent::Nothing
            },
            scancode < 0x80 && scancode != KEY_LEFT_SHIFT && scancode != KEY_RIGHT_SHIFT && scancode
                != KEY_ENTER && scancode != KEY_BACKSPACE ==> final(self).shift() == old(self).shift()
                && match key_char(scancode, old(self).shift()) {
                Some(c) => if old(self).line().len() < MAX_COMMAND_LEN {
                    final(self).line() == old(self).line().push(c as u8) && r == LineEvent::Echo(
                        c as u8,
                    )
                } else {
                    final(self).line() == old(self).line() && r == LineEvent::Nothing
                },
                None => final(self).line() == old(self).line() && r == LineEvent::Nothing,
            },
    {
        if scancode & 0x80 != 0 {
            assert(scancode & 0x80 != 0 ==> scancode >= 0x80) by (bit_vector);
            if scancode == KEY_LEFT_SHIFT_RELEASE || scancode == KEY_RIGHT_SHIFT_RELEASE {
                self.shift_pressed = false;
            }
            return LineEvent::Nothing;
        }
        assert(scancode & 0x80 == 0 ==> scancode < 0x80) by (bit_vector);
        if scancode == KEY_LEFT_SHIFT || scancode == KEY_RIGHT_SHIFT {
            self.shift_pressed = true;
            return LineEvent::Nothing;
        }
        if scancode == KEY_ENTER {
            let line = slice_to_vec(self.buffer.as_slice());
            self.buffer = Vec::new();
            return LineEvent::Submit(line);
        }
        if scancode == KEY_BACKSPACE {
            if self.buffer.len() > 0 {
                self.buffer.pop();
                return LineEvent::Erase;
            }
            return LineEvent::Nothing;
        }
        match Keyboard::scancode_to_char(scancode, self.shift_pressed) {
            Some(c) => {
                if self.buffer.len() < MAX_COMMAND_LEN {
                    let b = c as u8;
                    self.buffer.push(b);
                    LineEvent::Echo(b)
                } else {
                    LineEvent::Nothing
                }
            },
            None => LineEvent::Nothing,
        }
    }
}

/// The commands the shell knows.
#[derive(Clone, Copy, Debug, PartialEq, Eq, Structural)]
pub enum CommandKind {
    Empty,
    Help,
    Clear,
    Hello,
    Info,
    Echo,
    Play,
    Snake,
    Ls,
    Cat,
    Edit,
    Touch,
    Write,
    Rm,
    Mkdir,
    Rmdir,
    Cd,
    Pwd,
    HexFetch,
    GraphicTest,
    Unknown,
}

/// A submitted line read as a command and its argument text.
pub struct Command {
    pub kind: CommandKind,
    pub arg: Vec<u8>,
}

pub open spec fn starts_with(s: Seq<u8>, p: Seq<u8>) -> bool {
    p.len() <= s.len() && s.take(p.len() as int) == p
}

/// The command words: matched as the whole line.
pub const HELP: &'static str = "help";
pub const CLEAR: &'static str = "clear";
pub const HELLO: &'static str = "hello";
pub const INFO: &'static str = "info";
pub const SNAKE: &'static str = "snake";
pub const LS: &'static str = "ls";
pub const PWD: &'static str = "pwd";
pub const HEXFETCH: &'static str = "hexfetch";
pub const GRAPHICTEST: &'static str = "graphictest";

/// The command words that take an argument, with the space after them.
pub const ECHO: &'static str = "echo ";
pub const PLAY: &'static str = "play ";
pub const CAT: &'static str = "cat ";
pub const EDIT: &'static str = "edit ";
pub const TOUCH: &'static str = "touch ";
pub const WRITE: &'static str = "write ";
pub const RM: &'static str = "rm ";
pub const MKDIR: &'static str = "mkdir ";
pub const RMDIR: &'static str = "rmdir ";
pub const CD: &'static str = "cd ";

/// Which command a line is, checked in this order, and where its argument
/// starts.
pub open spec fn command_of(s: Seq<u8>) -> (CommandKind, int) {
    if s.len() == 0 {
        (CommandKind::Empty, 0)
    } else if s == HELP.spec_bytes() {
        (CommandKind::Help, s.len() as int)
    } else if s == CLEAR.spec_bytes() {
        (CommandKind::Clear, s.len() as int)
    } else if s == HELLO.spec_bytes() {
        (CommandKind::Hello, s.len() as int)
    } else if s == INFO.spec_bytes() {
        (CommandKind::Info, s.len() as int)
    } else if starts_with(s, ECHO.spec_bytes()) {
        (CommandKind::Echo, ECHO.spec_bytes().len() as int)
    } else if starts_with(s, PLAY.spec_bytes()) {
        (CommandKind::Play, PLAY.spec_bytes().len() as int)
    } else if s == SNAKE.spec_bytes() {
        (CommandKind::Snake, s.len() as int)
    } else if s == LS.spec_bytes() {
        (CommandKind::Ls, s.len() as int)
    } else if starts_with(s, CAT.spec_bytes()) {
        (CommandKind::Cat, CAT.spec_bytes().len() as int)
    } else if starts_with(s, EDIT.spec_bytes()) {
        (CommandKind::Edit, EDIT.spec_bytes().len() as int)
    } else if starts_with(s, TOUCH.spec_bytes()) {
        (CommandKind::Touch, TOUCH.spec_bytes().len() as int)
    } else if starts_with(s, WRITE.spec_bytes()) {
        (CommandKind::Write, WRITE.spec_bytes().len() as int)
    } else if starts_with(s, RM.spec_bytes()) {
        (CommandKind::Rm, RM.spec_bytes().len() as int)
    } else if starts_with(s, MKDIR.spec_bytes()) {
        (CommandKind::Mkdir, MKDIR.spec_bytes().len() as int)
    } else if starts_with(s, RMDIR.spec_bytes()) {
        (CommandKind::Rmdir, RMDIR.spec_bytes().len() as int)
    } else if starts_with(s, CD.spec_bytes()) {
        (CommandKind::Cd, CD.spec_bytes().len() as int)
    } else if s == PWD.spec_bytes() {
        (CommandKind::Pwd, s.len() as int)
    } else if s == HEXFETCH.spec_bytes() {
        (CommandKind::HexFetch, s.len() as int)
    } else if s == GRAPHICTEST.spec_bytes() {
        (CommandKind::GraphicTest, s.len() as int)
    } else {
        (CommandKind::Unknown, 0)
    }
}

pub fn starts_with_bytes(s: &[u8], p: &[u8]) -> (r: bool)
    ensures
        r == starts_with(s@, p@),
{
    if p.len() > s.len() {
        return false;
    }
    let mut i: usize = 0;
    while i < p.len()
        invariant
            p@.len() <= s@.len(),
            0 <= i <= p@.len(),
            forall|k: int| 0 <= k < i ==> s@[k] == p@[k],
        decreases p.len() - i,
    {
        if s[i] != p[i] {
            assert(s@.take(p@.len() as int)[i as int] != p@[i as int]);
            return false;
        }
        i += 1;
    }
    assert(s@.take(p@.len() as int) =~= p@);
    true
}

/// The bytes of `s` from index `start` up to (not including) `end`.
pub fn sub_bytes(s: &[u8], start: usize, end: usize) -> (r: Vec<u8>)
    requires
        start <= end <= s@.len(),
    ensures
        r@ == s@.subrange(start as int, end as int),
{
    let mut r: Vec<u8> = Vec::new();
    let mut i: usize = start;
    while i < end
        invariant
            start <= i <= end <= s@.len(),
            r@ == s@.subrange(start as int, i as int),
        decreases end - i,
    {
        r.push(s[i]);
        i += 1;
        assert(r@ =~= s@.subrange(start as int, i as int));
    }
    r
}

/// Reads a submitted line as a command; the argument is what follows the
/// command word and its space (empty for a command without one, the whole
/// line for an unknown one).
pub fn parse_command(cmd: &[u8]) -> (r: Command)
    ensures
        r.kind == command_of(cmd@).0,
        r.kind == CommandKind::Unknown ==> r.arg@ == cmd@,
        r.kind != CommandKind::Unknown ==> r.arg@ == cmd@.skip(command_of(cmd@).1),
{
    let (kind, start): (CommandKind, usize) = if cmd.len() == 0 {
        (CommandKind::Empty, 0)
    } else if bytes_eq(cmd, HELP.as_bytes()) {
        (CommandKind::Help, cmd.len())
    } else if bytes_eq(cmd, CLEAR.as_bytes()) {
        (CommandKind::Clear, cmd.len())
    } else if bytes_eq(cmd, HELLO.as_bytes()) {
        (CommandKind::Hello, cmd.len())
    } else if bytes_eq(cmd, INFO.as_bytes()) {
        (CommandKind::Info, cmd.len())
    } else if starts_with_bytes(cmd, ECHO.as_bytes()) {
        (CommandKind::Echo, ECHO.as_bytes().len())
    } else if starts_with_bytes(cmd, PLAY.as_bytes()) {
        (CommandKind::Play, PLAY.as_bytes().len())
    } else if bytes_eq(cmd, SNAKE.as_bytes()) {
        (CommandKind::Snake, cmd.len())
    } else if bytes_eq(cmd, LS.as_bytes()) {
        (CommandKind::Ls, cmd.len())
    } else if starts_with_bytes(cmd, CAT.as_bytes()) {
        (CommandKind::Cat, CAT.as_bytes().len())
    } else if starts_with_bytes(cmd, EDIT.as_bytes()) {
        (CommandKind::Edit, EDIT.as_bytes().len())
    } else if starts_with_bytes(cmd, TOUCH.as_bytes()) {
        (CommandKind::Touch, TOUCH.as_bytes().len())
    } else if starts_with_bytes(cmd, WRITE.as_bytes()) {
        (CommandKind::Write, WRITE.as_bytes().len())
    } else if starts_with_bytes(cmd, RM.as_bytes()) {
        (CommandKind::Rm, RM.as_bytes().len())
    } else if starts_with_bytes(cmd, MKDIR.as_bytes()) {
        (CommandKind::Mkdir, MKDIR.as_bytes().len())
    } else if starts_with_bytes(cmd, RMDIR.as_bytes()) {
        (CommandKind::Rmdir, RMDIR.as_bytes().len())
    } else if starts_with_bytes(cmd, CD.as_bytes()) {
        (CommandKind::Cd, CD.as_bytes().len())
    } else if bytes_eq(cmd, PWD.as_bytes()) {
        (CommandKind::Pwd, cmd.len())
    } else if bytes_eq(cmd, HEXFETCH.as_bytes()) {
        (CommandKind::HexFetch, cmd.len())
    } else if bytes_eq(cmd, GRAPHICTEST.as_bytes()) {
        (CommandKind::GraphicTest, cmd.len())
    } else {
        (CommandKind::Unknown, 0)
    };
    assert(cmd@.skip(start as int) =~= cmd@.subrange(start as int, cmd@.len() as int));
    Command { kind, arg: sub_bytes(cmd, start, cmd.len()) }
}

/// The decimal digits of `n`, most significant first.
pub open spec fn decimal(n: nat) -> Seq<u8>
    decreases n,
{
    if n < 10 {
        seq![(n + 48) as u8]
    } else {
        decimal(n / 10).push((n % 10 + 48) as u8)
    }
}

/// The decimal text of `n`, as the shell prints sizes.
pub fn decimal_digits(n: usize) -> (r: Vec<u8>)
    ensures
        r@ == decimal(n as nat),
    decreases n,
{
    if n < 10 {
        let mut v: Vec<u8> = Vec::new();
        v.push(n as u8 + 48);
        assert(v@ =~= decimal(n as nat));
        v
    } else {
        let mut v = decimal_digits(n / 10);
        v.push((n % 10) as u8 + 48);
        v
    }
}

/// Index of the first space in `s`.
pub open spec fn first_space(s: Seq<u8>) -> Option<int> {
    crate::filesystem::find_first(s, |b: u8| b == 32u8, 0)
}

/// Splits the argument of `write` at its first space into a file name and
/// the content; `None` when there is no space.
pub fn split_write_args(args: &[u8]) -> (r: Option<(Vec<u8>, Vec<u8>)>)
    ensures
        match first_space(args@) {
            Some(i) => (r matches Some((name, content)) && name@ == args@.take(i) && content@
                == args@.skip(i + 1)),
            None => r is None,
        },
{
    let ghost p = |b: u8| b == 32u8;
    let mut i: usize = 0;
    while i < args.len()
        invariant
            0 <= i <= args@.len(),
            p == (|b: u8| b == 32u8),
            crate::filesystem::find_first(args@, p, 0) == crate::filesystem::find_first(
                args@,
                p,
                i as int,
            ),
        decreases args.len() - i,
    {
        if args[i] == 32u8 {
            let name = sub_bytes(args, 0, i);
            let content = sub_bytes(args, i + 1, args.len());
            assert(args@.take(i as int) =~= args@.subrange(0, i as int));
            assert(args@.skip(i + 1) =~= args@.subrange(i + 1, args@.len() as int));
            return Some((name, content));
        }
        i += 1;
    }
    None
}

/// What the shell shows or starts after a command line.
pub enum Outcome {
    /// Nothing to show (an empty line, or a change of directory).
    Nothing,
    Help,
    Clear,
    Hello,
    Info,
    HexFetch,
    GraphicTest,
    StartSnake,
    /// Text to print back.
    Echo(Vec<u8>),
    /// Play the video of this name.
    PlayVideo(Vec<u8>),
    /// Open the editor on this file.
    Edit(Vec<u8>),
    /// The entries of the current directory.
    Listing(FileIterator),
    /// The content of the file asked for.
    Show(Vec<u8>),
    /// No file of this name in the current directory.
    NoSuchFile(Vec<u8>),
    /// `touch` on a file that already exists.
    AlreadyExists,
    Created(Vec<u8>),
    Written(Vec<u8>),
    Deleted(Vec<u8>),
    DirCreated(Vec<u8>),
    DirRemoved(Vec<u8>),
    /// `write` without a space between the name and the content.
    WriteUsage,
    /// The store refused the operation.
    Failed(FsError),
    /// The current path, cut to `MAX_PATH_LEN` bytes.
    Path(Vec<u8>),
    /// A line that is no command.
    Unknown(Vec<u8>),
}

pub enum OutcomeView {
    Nothing,
    Help,
    Clear,
    Hello,
    Info,
    HexFetch,
    GraphicTest,
    StartSnake,
    Echo(Seq<u8>),
    PlayVideo(Seq<u8>),
    Edit(Seq<u8>),
    Listing(Seq<EntryView>),
    Show(Seq<u8>),
    NoSuchFile(Seq<u8>),
    AlreadyExists,
    Created(Seq<u8>),
    Written(Seq<u8>),
    Deleted(Seq<u8>),
    DirCreated(Seq<u8>),
    DirRemoved(Seq<u8>),
    WriteUsage,
    Failed(FsError),
    Path(Seq<u8>),
    Unknown(Seq<u8>),
}

impl View for Outcome {
    type V = OutcomeView;

    open spec fn view(&self) -> OutcomeView {
        match self {
            Outcome::Nothing => OutcomeView::Nothing,
            Outcome::Help => OutcomeView::Help,
            Outcome::Clear => OutcomeView::Clear,
            Outcome::Hello => OutcomeView::Hello,
            Outcome::Info => OutcomeView::Info,
            Outcome::HexFetch => OutcomeView::HexFetch,
            Outcome::GraphicTest => OutcomeView::GraphicTest,
            Outcome::StartSnake => OutcomeView::StartSnake,
            Outcome::Echo(t) => OutcomeView::Echo(t@),
            Outcome::PlayVideo(n) => OutcomeView::PlayVideo(n@),
            Outcome::Edit(n) => OutcomeView::Edit(n@),
            Outcome::Listing(it) => OutcomeView::Listing(it@),
            Outcome::Show(c) => OutcomeView::Show(c@),
            Outcome::NoSuchFile(n) => OutcomeView::NoSuchFile(n@),
            Outcome::AlreadyExists => OutcomeView::AlreadyExists,
            Outcome::Created(n) => OutcomeView::Created(n@),
            Outcome::Written(n) => OutcomeView::Written(n@),
            Outcome::Deleted(n) => OutcomeView::Deleted(n@),
            Outcome::DirCreated(n) => OutcomeView::DirCreated(n@),
            Outcome::DirRemoved(n) => OutcomeView::DirRemoved(n@),
            Outcome::WriteUsage => OutcomeView::WriteUsage,
            Outcome::Failed(e) => OutcomeView::Failed(*e),
            Outcome::Path(p) => OutcomeView::Path(p@),
            Outcome::Unknown(l) => OutcomeView::Unknown(l@),
        }
    }
}

/// `done` when the store accepted the operation, else its refusal.
pub open spec fn reported(r: Result<(), FsError>, done: OutcomeView) -> OutcomeView {
    match r {
        Ok(()) => done,
        Err(e) => OutcomeView::Failed(e),
    }
}

/// The argument of a command line: what follows the command word and its
/// space, or the whole line when it is no command.
pub open spec fn argument_of(s: Seq<u8>) -> Seq<u8> {
    if command_of(s).0 == CommandKind::Unknown {
        s
    } else {
        s.skip(command_of(s).1)
    }
}

/// `p` cut to `MAX_PATH_LEN` bytes.
pub open spec fn cut_path(p: Seq<u8>) -> Seq<u8> {
    if p.len() <= MAX_PATH_LEN {
        p
    } else {
        p.take(MAX_PATH_LEN as int)
    }
}

/// What a command line shows and does to the store: the outcome and the
/// store afterwards. `touch` creates an empty file unless one exists; `write`
/// splits its argument at the first space into a name and the content.
pub open spec fn command_effect(fs: FsView, s: Seq<u8>) -> (OutcomeView, FsView) {
    let arg = argument_of(s);
    match command_of(s).0 {
        CommandKind::Empty => (OutcomeView::Nothing, fs),
        CommandKind::Help => (OutcomeView::Help, fs),
        CommandKind::Clear => (OutcomeView::Clear, fs),
        CommandKind::Hello => (OutcomeView::Hello, fs),
        CommandKind::Info => (OutcomeView::Info, fs),
        CommandKind::HexFetch => (OutcomeView::HexFetch, fs),
        CommandKind::GraphicTest => (OutcomeView::GraphicTest, fs),
        CommandKind::Snake => (OutcomeView::StartSnake, fs),
        CommandKind::Echo => (OutcomeView::Echo(arg), fs),
        CommandKind::Play => (OutcomeView::PlayVideo(arg), fs),
        CommandKind::Edit => (OutcomeView::Edit(arg), fs),
        CommandKind::Ls => (OutcomeView::Listing(fs.listing()), fs),
        CommandKind::Cat => match fs.read(arg) {
            Some(c) => (OutcomeView::Show(c), fs),
            None => (OutcomeView::NoSuchFile(arg), fs),
        },
        CommandKind::Touch => if fs.read(arg) is Some {
            (OutcomeView::AlreadyExists, fs)
        } else {
            let (r, f2) = fs.create(arg, Seq::empty());
            (reported(r, OutcomeView::Created(arg)), f2)
        },
        CommandKind::Write => match first_space(arg) {
            None => (OutcomeView::WriteUsage, fs),
            Some(i) => {
                let (r, f2) = fs.write(arg.take(i), arg.skip(i + 1));
                (reported(r, OutcomeView::Written(arg.take(i))), f2)
            },
        },
        CommandKind::Rm => {
            let (r, f2) = fs.delete(arg);
            (reported(r, OutcomeView::Deleted(arg)), f2)
        },
        CommandKind::Mkdir => {
            let (r, f2) = fs.mkdir(arg);
            (reported(r, OutcomeView::DirCreated(arg)), f2)
        },
        CommandKind::Rmdir => {
            let (r, f2) = fs.rmdir(arg);
            (reported(r, OutcomeView::DirRemoved(arg)), f2)
        },
        CommandKind::Cd => {
            let (r, f2) = fs.cd(arg);
            (reported(r, OutcomeView::Nothing), f2)
        },
        CommandKind::Pwd => (OutcomeView::Path(cut_path(fs.path())), fs),
        CommandKind::Unknown => (OutcomeView::Unknown(arg), fs),
    }
}

fn reply(r: Result<(), FsError>, done: Outcome) -> (o: Outcome)
    ensures
        o@ == reported(r, done@),
{
    match r {
        Ok(()) => done,
        Err(e) => Outcome::Failed(e),
    }
}

impl CLI {
    /// Carries out a submitted line: the store operations of the file
    /// commands are done here; what is left for the caller is shown by the
    /// outcome.
    pub fn execute_command(&self, fs: &mut FileSystem, line: &[u8]) -> (r: Outcome)
        requires
            old(fs).wf(),
        ensures
            final(fs).wf(),
            (r@, final(fs)@) == command_effect(old(fs)@, line@),
    {
        let cmd = parse_command(line);
        let arg = cmd.arg;
        proof {
            crate::filesystem::lemma_create_wf(fs@, arg@, Seq::empty());
        }
        match cmd.kind {
            CommandKind::Empty => Outcome::Nothing,
            CommandKind::Help => Outcome::Help,
            CommandKind::Clear => Outcome::Clear,
            CommandKind::Hello => Outcome::Hello,
            CommandKind::Info => Outcome::Info,
            CommandKind::HexFetch => Outcome::HexFetch,
            CommandKind::GraphicTest => Outcome::GraphicTest,
            CommandKind::Snake => Outcome::StartSnake,
            CommandKind::Echo => Outcome::Echo(arg),
            CommandKind::Play => Outcome::PlayVideo(arg),
            CommandKind::Edit => Outcome::Edit(arg),
            CommandKind::Ls => Outcome::Listing(fs.list_files()),
            CommandKind::Cat => match fs.read_file(arg.as_slice()) {
                Some(content) => Outcome::Show(slice_to_vec(content)),
                None => Outcome::NoSuchFile(arg),
            },
            CommandKind::Touch => {
                if fs.file_exists(arg.as_slice()) {
                    Outcome::AlreadyExists
                } else {
                    let empty: Vec<u8> = Vec::new();
                    assert(empty@ =~= Seq::<u8>::empty());
                    let r = fs.create_file(arg.as_slice(), empty.as_slice());
                    reply(r, Outcome::Created(arg))
                }
            },
            CommandKind::Write => match split_write_args(arg.as_slice()) {
                Some((name, content)) => {
                    let r = fs.write_file(name.as_slice(), content.as_slice());
                    reply(r, Outcome::Written(name))
                },
                None => Outcome::WriteUsage,
            },
            CommandKind::Rm => {
                let r = fs.delete_file(arg.as_slice());
                reply(r, Outcome::Deleted(arg))
            },
            CommandKind::Mkdir => {
                let r = fs.create_directory(arg.as_slice());
                reply(r, Outcome::DirCreated(arg))
            },
            CommandKind::Rmdir => {
                let r = fs.remove_directory(arg.as_slice());
                reply(r, Outcome::DirRemoved(arg))
            },
            CommandKind::Cd => {
                let r = fs.change_directory(arg.as_slice());
                reply(r, Outcome::Nothing)
            },
            CommandKind::Pwd => {
                let path = fs.current_path();
                let n = if path.len() <= MAX_PATH_LEN {
                    path.len()
                } else {
                    MAX_PATH_LEN
                };
                let cut = sub_bytes(path.as_slice(), 0, n);
                assert(cut@ =~= cut_path(fs@.path()));
                Outcome::Path(cut)
            },
            CommandKind::Unknown => Outcome::Unknown(arg),
        }
    }
}

} // verus!
