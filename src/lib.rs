//! The core of a small single-core kernel: the scancode buffer between the
//! keyboard interrupt and foreground code, the timer tick counter, an
//! in-memory file store, and the state machines of the applications that
//! share them (shell, editor, snake game, video player), with the text and
//! pixel screens they draw on.

pub mod audio;
pub mod cli;
pub mod editor;
pub mod filesystem;
pub mod graphics;
pub mod idt;
pub mod keyboard;
pub mod scancode_buffer;
pub mod snake;
pub mod snake_graphics;
pub mod timer;
pub mod video_player;
pub mod vga_colors;
pub mod writer;
