use hexium::scancode_buffer::{ScancodeBuffer, BUFFER_SIZE};
use hexium::timer::{ticks_elapsed, TickCounter};

#[test]
fn fifo_with_interleaved_pops() {
    let mut b = ScancodeBuffer::new();
    b.push(1);
    b.push(2);
    assert_eq!(b.pop(), Some(1));
    b.push(3);
    assert_eq!(b.pop(), Some(2));
    assert_eq!(b.pop(), Some(3));
    assert_eq!(b.pop(), None);
}

#[test]
fn fifo_up_to_capacity_minus_one_across_wrap() {
    let mut b = ScancodeBuffer::new();
    // move the indices close to the end of the array first
    for i in 0..20u8 {
        b.push(i);
        assert_eq!(b.pop(), Some(i));
    }
    for i in 0..(BUFFER_SIZE as u8 - 1) {
        b.push(100 + i);
    }
    for i in 0..(BUFFER_SIZE as u8 - 1) {
        assert_eq!(b.pop(), Some(100 + i));
    }
    assert_eq!(b.pop(), None);
}

#[test]
fn overflow_drops_newest() {
    let mut b = ScancodeBuffer::new();
    for i in 0..(BUFFER_SIZE as u8 + 1) {
        b.push(i);
    }
    let mut out = Vec::new();
    while let Some(x) = b.pop() {
        out.push(x);
    }
    let expected: Vec<u8> = (0..(BUFFER_SIZE as u8 - 1)).collect();
    assert_eq!(out, expected);
}

#[test]
fn flush_empty_is_noop() {
    let mut b = ScancodeBuffer::new();
    b.flush();
    assert_eq!(b.pop(), None);
    b.push(7);
    assert_eq!(b.pop(), Some(7));
}

#[test]
fn flush_non_empty_leaves_it_empty() {
    let mut b = ScancodeBuffer::new();
    b.push(1);
    b.push(2);
    b.push(3);
    b.flush();
    assert_eq!(b.pop(), None);
    b.flush();
    assert_eq!(b.pop(), None);
}

#[test]
fn tick_wraparound() {
    assert!(ticks_elapsed(0xFFFF_FFF0, 0x0000_0005, 20));
    assert!(!ticks_elapsed(0xFFFF_FFF0, 0x0000_0005, 22));
    assert!(ticks_elapsed(0xFFFF_FFF0, 0x0000_0005, 21));
    assert!(!ticks_elapsed(5, 10, 6));
    assert!(ticks_elapsed(5, 10, 5));
}

#[test]
fn tick_counter_wraps() {
    let mut t = TickCounter::new();
    assert_eq!(t.get_ticks(), 0);
    t.tick();
    t.tick();
    assert_eq!(t.get_ticks(), 2);
}
