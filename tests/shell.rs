use hexium::cli::{
    decimal_digits, parse_command, split_write_args, CommandKind, LineEvent, Outcome, CLI,
};
use hexium::filesystem::{FileEntry, FileSystem, FsError};
use hexium::writer::Writer;

fn type_keys(cli: &mut CLI, keys: &[u8]) -> Vec<LineEvent> {
    keys.iter().map(|&k| cli.handle_scancode(k)).collect()
}

#[test]
fn typing_and_submitting() {
    let mut cli = CLI::new();
    let ev = type_keys(&mut cli, &[0x26, 0x1F]);
    assert_eq!(ev, vec![LineEvent::Echo(b'l'), LineEvent::Echo(b's')]);
    assert_eq!(cli.handle_scancode(0x1C), LineEvent::Submit(b"ls".to_vec()));
    assert_eq!(cli.handle_scancode(0x1C), LineEvent::Submit(Vec::new()));
}

#[test]
fn shift_backspace_and_releases() {
    let mut cli = CLI::new();
    assert_eq!(cli.handle_scancode(0x2A), LineEvent::Nothing);
    assert_eq!(cli.handle_scancode(0x23), LineEvent::Echo(b'H'));
    assert_eq!(cli.handle_scancode(0xAA), LineEvent::Nothing);
    assert_eq!(cli.handle_scancode(0x17), LineEvent::Echo(b'i'));
    assert_eq!(cli.handle_scancode(0x97), LineEvent::Nothing);
    assert_eq!(cli.handle_scancode(0x0E), LineEvent::Erase);
    assert_eq!(cli.handle_scancode(0x0E), LineEvent::Erase);
    assert_eq!(cli.handle_scancode(0x0E), LineEvent::Nothing);
    assert_eq!(cli.handle_scancode(0x3B), LineEvent::Nothing);
}

#[test]
fn long_lines_are_cut() {
    let mut cli = CLI::new();
    for _ in 0..80 {
        assert_eq!(cli.handle_scancode(0x1E), LineEvent::Echo(b'a'));
    }
    assert_eq!(cli.handle_scancode(0x1E), LineEvent::Nothing);
    assert_eq!(cli.handle_scancode(0x1C), LineEvent::Submit(vec![b'a'; 80]));
}

#[test]
fn command_parsing() {
    let c = parse_command(b"help");
    assert_eq!(c.kind, CommandKind::Help);
    assert_eq!(parse_command(b"").kind, CommandKind::Empty);
    assert_eq!(parse_command(b"ls").kind, CommandKind::Ls);
    assert_eq!(parse_command(b"pwd").kind, CommandKind::Pwd);
    let c = parse_command(b"cat a.txt");
    assert_eq!((c.kind, c.arg.as_slice()), (CommandKind::Cat, &b"a.txt"[..]));
    let c = parse_command(b"rmdir d");
    assert_eq!((c.kind, c.arg.as_slice()), (CommandKind::Rmdir, &b"d"[..]));
    let c = parse_command(b"rm f");
    assert_eq!((c.kind, c.arg.as_slice()), (CommandKind::Rm, &b"f"[..]));
    let c = parse_command(b"echo hello world");
    assert_eq!((c.kind, c.arg.as_slice()), (CommandKind::Echo, &b"hello world"[..]));
    let c = parse_command(b"helpme");
    assert_eq!((c.kind, c.arg.as_slice()), (CommandKind::Unknown, &b"helpme"[..]));
    assert_eq!(parse_command(b"cat").kind, CommandKind::Unknown);
}

#[test]
fn decimal_text() {
    assert_eq!(decimal_digits(0), b"0".to_vec());
    assert_eq!(decimal_digits(7), b"7".to_vec());
    assert_eq!(decimal_digits(4096), b"4096".to_vec());
    assert_eq!(decimal_digits(usize::MAX), usize::MAX.to_string().into_bytes());
}

#[test]
fn write_arguments() {
    assert_eq!(
        split_write_args(b"f hello world"),
        Some((b"f".to_vec(), b"hello world".to_vec()))
    );
    assert_eq!(split_write_args(b"f "), Some((b"f".to_vec(), Vec::new())));
    assert_eq!(split_write_args(b"nospace"), None);
}

#[test]
fn prompt_is_written() {
    let cli = CLI::new();
    let mut w = Writer::new(0x0F);
    cli.show_prompt(&mut w);
    let text: Vec<u8> = (0..10).map(|c| w.cells()[c * 2]).collect();
    assert_eq!(text, b"HexiumOS> ".to_vec());
    assert_eq!(w.cells()[1], 0x0A);
    assert_eq!(w.get_col(), 10);
}

fn names(o: Outcome) -> Vec<Vec<u8>> {
    match o {
        Outcome::Listing(mut it) => {
            let mut v = Vec::new();
            while let Some(e) = it.next() {
                match e {
                    FileEntry::File(n, _) | FileEntry::Directory(n) => v.push(n),
                }
            }
            v
        }
        _ => panic!("not a listing"),
    }
}

#[test]
fn dispatch_file_commands() {
    let cli = CLI::new();
    let mut fs = FileSystem::new();
    assert!(matches!(cli.execute_command(&mut fs, b"touch a"), Outcome::Created(n) if n == b"a"));
    assert!(matches!(cli.execute_command(&mut fs, b"touch a"), Outcome::AlreadyExists));
    assert!(matches!(cli.execute_command(&mut fs, b"write a hi there"), Outcome::Written(n) if n == b"a"));
    assert!(matches!(cli.execute_command(&mut fs, b"cat a"), Outcome::Show(c) if c == b"hi there"));
    assert!(matches!(cli.execute_command(&mut fs, b"write a"), Outcome::WriteUsage));
    assert!(matches!(cli.execute_command(&mut fs, b"cat b"), Outcome::NoSuchFile(n) if n == b"b"));
    assert!(matches!(cli.execute_command(&mut fs, b"mkdir d"), Outcome::DirCreated(n) if n == b"d"));
    assert_eq!(names(cli.execute_command(&mut fs, b"ls")), vec![b"d".to_vec(), b"a".to_vec()]);
    assert!(matches!(cli.execute_command(&mut fs, b"cd d"), Outcome::Nothing));
    assert!(matches!(cli.execute_command(&mut fs, b"pwd"), Outcome::Path(p) if p == b"/d"));
    assert!(matches!(cli.execute_command(&mut fs, b"cd nope"), Outcome::Failed(FsError::NotFound)));
    assert!(matches!(cli.execute_command(&mut fs, b"cd .."), Outcome::Nothing));
    assert!(matches!(cli.execute_command(&mut fs, b"rm a"), Outcome::Deleted(n) if n == b"a"));
    assert!(matches!(cli.execute_command(&mut fs, b"rm a"), Outcome::Failed(FsError::NotFound)));
    assert!(matches!(cli.execute_command(&mut fs, b"rmdir d"), Outcome::DirRemoved(n) if n == b"d"));
}

#[test]
fn dispatch_other_commands() {
    let cli = CLI::new();
    let mut fs = FileSystem::new();
    assert!(matches!(cli.execute_command(&mut fs, b""), Outcome::Nothing));
    assert!(matches!(cli.execute_command(&mut fs, b"help"), Outcome::Help));
    assert!(matches!(cli.execute_command(&mut fs, b"snake"), Outcome::StartSnake));
    assert!(matches!(cli.execute_command(&mut fs, b"echo hi"), Outcome::Echo(t) if t == b"hi"));
    assert!(matches!(cli.execute_command(&mut fs, b"edit x"), Outcome::Edit(t) if t == b"x"));
    assert!(matches!(cli.execute_command(&mut fs, b"play v"), Outcome::PlayVideo(t) if t == b"v"));
    assert!(matches!(cli.execute_command(&mut fs, b"dance"), Outcome::Unknown(t) if t == b"dance"));
    assert!(names(cli.execute_command(&mut fs, b"ls")).is_empty());
}

#[test]
fn shell_enter_discards_earlier_keys() {
    let mut cli = CLI::new();
    let mut b = hexium::scancode_buffer::ScancodeBuffer::new();
    b.push(0x1E);
    cli.enter(&mut b);
    assert_eq!(b.pop(), None);
    assert_eq!(cli.handle_scancode(0x1C), LineEvent::Submit(Vec::new()));
}
