use hexium::editor::{Editor, EditorAction, EditorKeys};
use hexium::filesystem::{FileSystem, FsError, MAX_FILE_SIZE};
use hexium::scancode_buffer::ScancodeBuffer;
use hexium::snake::{Direction, Point, SnakeAction, SnakeGame};
use hexium::snake_graphics::SnakeGameGraphics;
use hexium::video_player::{frame_color, VideoAction, VideoPlayer};

fn keys(ed: &mut Editor, k: &mut EditorKeys, fs: &mut FileSystem, codes: &[u8]) -> Vec<EditorAction> {
    codes.iter().map(|&c| ed.handle_key(k, c, fs)).collect()
}

fn text(ed: &Editor) -> Vec<Vec<u8>> {
    (0..ed.num_lines()).map(|i| ed.line(i).to_vec()).collect()
}

#[test]
fn editor_opens_missing_and_existing_files() {
    let mut fs = FileSystem::new();
    let mut ed = Editor::new();
    assert_eq!(ed.open(b"new.txt", &fs), Ok(()));
    assert_eq!(text(&ed), vec![Vec::<u8>::new()]);
    assert_eq!(fs.create_file(b"two", b"ab\ncd"), Ok(()));
    let mut ed = Editor::new();
    assert_eq!(ed.open(b"two", &fs), Ok(()));
    assert_eq!(text(&ed), vec![b"ab".to_vec(), b"cd".to_vec()]);
    let long = [b'x'; 33];
    assert_eq!(Editor::new().open(&long, &fs), Err(FsError::NameTooLong));
}

#[test]
fn editor_long_lines_and_many_lines() {
    let mut fs = FileSystem::new();
    let mut content = vec![b'y'; 90];
    content.push(b'\n');
    for _ in 0..150 {
        content.extend_from_slice(b"z\n");
    }
    assert_eq!(fs.create_file(b"big", &content), Ok(()));
    let mut ed = Editor::new();
    assert_eq!(ed.open(b"big", &fs), Ok(()));
    assert_eq!(ed.num_lines(), 100);
    assert_eq!(ed.line(0).len(), 80);
    assert_eq!(ed.line(99), b"z");
}

#[test]
fn editor_typing_newline_backspace_and_save() {
    let mut fs = FileSystem::new();
    let mut ed = Editor::new();
    let mut k = EditorKeys::new();
    assert_eq!(ed.open(b"n.txt", &fs), Ok(()));
    let a = keys(&mut ed, &mut k, &mut fs, &[0x23, 0x17]);
    assert_eq!(a, vec![EditorAction::Redraw, EditorAction::Redraw]);
    assert_eq!(text(&ed), vec![b"hi".to_vec()]);
    assert!(ed.is_modified());
    keys(&mut ed, &mut k, &mut fs, &[0x4B, 0x1C]);
    assert_eq!(text(&ed), vec![b"h".to_vec(), b"i".to_vec()]);
    assert_eq!((ed.cursor_x(), ed.cursor_y()), (0, 1));
    keys(&mut ed, &mut k, &mut fs, &[0x0E]);
    assert_eq!(text(&ed), vec![b"hi".to_vec()]);
    assert_eq!((ed.cursor_x(), ed.cursor_y()), (1, 0));
    let a = keys(&mut ed, &mut k, &mut fs, &[0x1D, 0x1F, 0x9D]);
    assert_eq!(a[1], EditorAction::Saved(Ok(())));
    assert!(!ed.is_modified());
    assert_eq!(fs.read_file(b"n.txt"), Some(&b"hi"[..]));
}

#[test]
fn editor_quit_confirmation() {
    let mut fs = FileSystem::new();
    let mut ed = Editor::new();
    let mut k = EditorKeys::new();
    assert_eq!(ed.open(b"q", &fs), Ok(()));
    assert_eq!(ed.handle_key(&mut k, 0x01, &mut fs), EditorAction::Quit);
    assert_eq!(ed.handle_key(&mut k, 0x1E, &mut fs), EditorAction::Redraw);
    assert_eq!(ed.handle_key(&mut k, 0x01, &mut fs), EditorAction::ConfirmQuit);
    assert_eq!(ed.handle_key(&mut k, 0x81, &mut fs), EditorAction::Nothing);
    assert_eq!(ed.handle_key(&mut k, 0x30, &mut fs), EditorAction::Nothing);
    assert_eq!(text(&ed), vec![b"a".to_vec()]);
    assert_eq!(ed.handle_key(&mut k, 0x01, &mut fs), EditorAction::ConfirmQuit);
    assert_eq!(ed.handle_key(&mut k, 0x01, &mut fs), EditorAction::Quit);
}

#[test]
fn editor_ctrl_blocks_typing_and_status_line() {
    let mut fs = FileSystem::new();
    let mut ed = Editor::new();
    let mut k = EditorKeys::new();
    assert_eq!(ed.open(b"a.txt", &fs), Ok(()));
    keys(&mut ed, &mut k, &mut fs, &[0x1D, 0x1E, 0x9D, 0x1E, 0x1E]);
    assert_eq!(text(&ed), vec![b"aa".to_vec()]);
    let s = ed.status_line();
    assert_eq!(s.len(), 80);
    assert_eq!(&s[..7], b" a.txt*");
    assert_eq!(&s[64..77], b" Line:1 Col:3");
    assert_eq!(s[77], b' ');
}

#[test]
fn editor_refuses_text_larger_than_a_file() {
    let mut fs = FileSystem::new();
    let mut content = Vec::new();
    for _ in 0..60 {
        content.extend_from_slice(&[b'w'; 70]);
        content.push(b'\n');
    }
    content.truncate(MAX_FILE_SIZE);
    assert_eq!(fs.create_file(b"w", &content), Ok(()));
    let mut ed = Editor::new();
    let mut k = EditorKeys::new();
    assert_eq!(ed.open(b"w", &fs), Ok(()));
    assert_eq!(ed.handle_key(&mut k, 0x1D, &mut fs), EditorAction::Nothing);
    assert_eq!(ed.handle_key(&mut k, 0x1F, &mut fs), EditorAction::Saved(Err(FsError::ContentTooLarge)));
}

#[test]
fn snake_moves_and_hits_wall() {
    let mut g = SnakeGame::new();
    assert_eq!(g.snake()[0], Point { x: 20, y: 10 });
    for _ in 0..19 {
        assert!(g.update());
    }
    assert_eq!(g.snake()[0], Point { x: 39, y: 10 });
    assert!(!g.update());
    assert!(g.is_game_over());
    assert!(!g.update());
}

#[test]
fn snake_turns_and_eats() {
    let mut g = SnakeGame::new();
    assert!(!g.handle_scancode(0x1E));
    assert!(!g.started());
    assert!(!g.handle_scancode(0x11));
    assert!(g.started());
    assert!(g.update());
    assert!(!g.handle_scancode(0x1E));
    for _ in 0..4 {
        assert!(g.update());
    }
    assert!(!g.handle_scancode(0x1F));
    assert!(g.update());
    assert!(!g.handle_scancode(0x1E));
    assert!(g.update());
    assert_eq!(g.snake()[0], Point { x: 15, y: 10 });
    assert_eq!(g.snake().len(), 4);
    assert_eq!(g.score(), 10);
    let f = g.food();
    assert!(f.x < 40 && f.y < 20);
    assert!(!g.snake().contains(&f));
}

#[test]
fn snake_drains_until_quit() {
    let mut g = SnakeGame::new();
    let mut b = ScancodeBuffer::new();
    for k in [0x91u8, 0x11, 0x10, 0x1E] {
        b.push(k);
    }
    assert!(g.drain_input(&mut b));
    assert!(g.started());
    assert_eq!(b.pop(), Some(0x1E));
    b.push(0x20);
    assert!(!g.drain_input(&mut b));
    assert_eq!(b.pop(), None);
    let _ = Direction::Up;
}

#[test]
fn snake_on_pixels() {
    let mut s = SnakeGameGraphics::new();
    s.draw_cell(0, 0, 5);
    let px = s.screen().pixels();
    assert_eq!(px[(16 * 4) * 320 + 20 * 4], 5);
    assert_eq!(px[(16 * 4 + 3) * 320 + 20 * 4 + 3], 5);
    assert_eq!(px[(16 * 4 + 4) * 320 + 20 * 4], 0);
    s.draw_cell(40, 0, 6);
    assert!(s.screen().pixels().iter().all(|&p| p != 6));
    s.draw_square(79, 49, 3);
    assert_eq!(s.screen().pixels()[199 * 320 + 319], 3);
    s.clear_game_area();
    assert!(s.screen().pixels().iter().all(|&p| p == 0));
    assert!(s.update());
}

static FRAMES: [u8; 12] = [1, 2, 3, 4, 5, 6, 7, 8, 9, 10, 11, 12];

#[test]
fn video_frames_and_keys() {
    let mut v = VideoPlayer::new(&FRAMES, 3, 2, 2, 30);
    assert_eq!(v.ticks_per_frame(), 3);
    assert_eq!(v.get_frame_data(0), Some(&FRAMES[0..4]));
    assert_eq!(v.get_frame_data(2), Some(&FRAMES[8..12]));
    assert_eq!(v.get_frame_data(3), None);
    let mut short = VideoPlayer::new(&FRAMES, 4, 2, 2, 30);
    assert_eq!(short.get_frame_data(3), None);
    short.advance();
    assert!(!v.handle_scancode(0x4D));
    assert_eq!(v.current_frame(), 2);
    v.advance();
    assert_eq!(v.current_frame(), 0);
    assert!(!v.handle_scancode(0x39));
    assert!(!v.playing());
    assert!(v.handle_scancode(0x10));
    let mut b = ScancodeBuffer::new();
    for k in [0xB9u8, 0x39, 0x47, 0x4D, 0x10, 0x4D] {
        b.push(k);
    }
    let mut w = VideoPlayer::new(&FRAMES, 3, 2, 2, 30);
    assert!(w.drain_input(&mut b));
    assert!(!w.playing());
    assert_eq!(w.current_frame(), 2);
    assert_eq!(b.pop(), Some(0x4D));
    assert!(!w.drain_input(&mut b));
    assert_eq!(frame_color(b'#'), 0x0F);
    assert_eq!(frame_color(b'.'), 0x08);
    assert_eq!(frame_color(b'-'), 0x07);
}

#[test]
fn snake_session_steps() {
    let mut g = SnakeGame::new();
    let mut b = ScancodeBuffer::new();
    b.push(0x11);
    g.enter(&mut b, 0xFFFF_FFF8);
    assert_eq!(b.pop(), None);
    assert_eq!(g.on_wake(&mut b, 0xFFFF_FFFF), SnakeAction::Wait);
    b.push(0x20);
    assert_eq!(g.on_wake(&mut b, 0x0000_0001), SnakeAction::Wait);
    assert!(g.started());
    assert_eq!(g.on_wake(&mut b, 0x0000_0002), SnakeAction::Redraw);
    assert_eq!(g.snake()[0], Point { x: 21, y: 10 });
    assert_eq!(g.on_wake(&mut b, 0x0000_000B), SnakeAction::Wait);
    assert_eq!(g.on_wake(&mut b, 0x0000_000C), SnakeAction::Redraw);
    let mut t: u32 = 12;
    let mut last = SnakeAction::Redraw;
    while last == SnakeAction::Redraw {
        t += 10;
        last = g.on_wake(&mut b, t);
    }
    assert_eq!(last, SnakeAction::GameOver);
    for k in [0x11u8, 0x90, 0x10, 0x1E] {
        b.push(k);
    }
    assert_eq!(g.on_wake(&mut b, t + 10), SnakeAction::Quit);
    assert_eq!(b.pop(), Some(0x1E));
    b.push(0x11);
    assert_eq!(g.on_wake(&mut b, t + 20), SnakeAction::Wait);
    assert_eq!(b.pop(), None);
}

#[test]
fn snake_quits_while_playing() {
    let mut g = SnakeGame::new();
    let mut b = ScancodeBuffer::new();
    g.enter(&mut b, 0);
    b.push(0x10);
    assert_eq!(g.on_wake(&mut b, 50), SnakeAction::Quit);
}

#[test]
fn video_session_steps() {
    let mut v = VideoPlayer::new(&FRAMES, 3, 2, 2, 30);
    let mut b = ScancodeBuffer::new();
    b.push(0x39);
    v.enter(&mut b, 100);
    assert_eq!(b.pop(), None);
    assert_eq!(v.on_wake(&mut b, 102), VideoAction::Wait);
    assert_eq!(v.on_wake(&mut b, 103), VideoAction::Show(0));
    assert_eq!(v.current_frame(), 1);
    assert_eq!(v.on_wake(&mut b, 105), VideoAction::Wait);
    assert_eq!(v.on_wake(&mut b, 106), VideoAction::Show(1));
    b.push(0x39);
    assert_eq!(v.on_wake(&mut b, 200), VideoAction::Wait);
    b.push(0x39);
    b.push(0x10);
    b.push(0x47);
    assert_eq!(v.on_wake(&mut b, 300), VideoAction::Quit);
    assert_eq!(b.pop(), Some(0x47));
    assert_eq!(v.on_wake(&mut b, 400), VideoAction::Show(2));
    assert_eq!(v.current_frame(), 0);
}

#[test]
fn editor_enter_discards_earlier_keys() {
    let fs = FileSystem::new();
    let mut ed = Editor::new();
    assert_eq!(ed.open(b"e", &fs), Ok(()));
    let mut b = ScancodeBuffer::new();
    b.push(0x1E);
    b.push(0x1C);
    ed.enter(&mut b);
    assert_eq!(b.pop(), None);
    assert_eq!(text(&ed), vec![Vec::<u8>::new()]);
    assert!(!ed.is_modified());
}

#[test]
fn graphics_snake_session() {
    let mut s = SnakeGameGraphics::new();
    let mut b = ScancodeBuffer::new();
    b.push(0x1E);
    s.enter(&mut b, 0);
    assert_eq!(b.pop(), None);
    b.push(0x11);
    assert_eq!(s.on_wake(&mut b, 5), SnakeAction::Wait);
    assert_eq!(s.on_wake(&mut b, 10), SnakeAction::Redraw);
    assert_eq!(s.game().snake()[0], Point { x: 20, y: 9 });
    b.push(0x10);
    assert_eq!(s.on_wake(&mut b, 11), SnakeAction::Quit);
}
