//! The characters that keyboard scancodes (set 1, US layout) type.
use vstd::prelude::*;

verus! {

/// Characters of a key row, starting at the scancode `first`.
pub open spec fn row_char(row: Seq<char>, first: u8, scancode: u8) -> Option<char> {
    if first <= scancode && scancode < first + row.len() {
        Some(row[scancode - first])
    } else {
        None
    }
}

/// The printable character of a key press, with or without shift.
pub open spec fn key_char(scancode: u8, shift: bool) -> Option<char> {
    let digits = if shift {
        seq!['!', '@', '#', '$', '%', '^', '&', '*', '(', ')', '_', '+']
    } else {
        seq!['1', '2', '3', '4', '5', '6', '7', '8', '9', '0', '-', '=']
    };
    let upper = if shift {
        seq!['Q', 'W', 'E', 'R', 'T', 'Y', 'U', 'I', 'O', 'P', '{', '}']
    } else {
        seq!['q', 'w', 'e', 'r', 't', 'y', 'u', 'i', 'o', 'p', '[', ']']
    };
    let home = if shift {
        seq!['A', 'S', 'D', 'F', 'G', 'H', 'J', 'K', 'L', ':', '"', '~']
    } else {
        seq!['a', 's', 'd', 'f', 'g', 'h', 'j', 'k', 'l', ';', '\'', '`']
    };
    let lower = if shift {
        seq!['|', 'Z', 'X', 'C', 'V', 'B', 'N', 'M', '<', '>', '?']
    } else {
        seq!['\\', 'z', 'x', 'c', 'v', 'b', 'n', 'm', ',', '.', '/']
    };
    if scancode == 0x39 {
        Some(' ')
    } else if row_char(digits, 0x02, scancode) is Some {
        row_char(digits, 0x02, scancode)
    } else if row_char(upper, 0x10, scancode) is Some {
        row_char(upper, 0x10, scancode)
    } else if row_char(home, 0x1E, scancode) is Some {
        row_char(home, 0x1E, scancode)
    } else {
        row_char(lower, 0x2B, scancode)
    }
}

pub struct Keyboard;

impl Keyboard {
    /// The character that the key `scancode` types, if it types one.
    pub fn scancode_to_char(scancode: u8, shift: bool) -> (r: Option<char>)
        ensures
            r == key_char(scancode, shift),
    {
        match scancode {
            0x1E => Some(if shift { 'A' } else { 'a' }),
            0x30 => Some(if shift { 'B' } else { 'b' }),
            0x2E => Some(if shift { 'C' } else { 'c' }),
            0x20 => Some(if shift { 'D' } else { 'd' }),
            0x12 => Some(if shift { 'E' } else { 'e' }),
            0x21 => Some(if shift { 'F' } else { 'f' }),
            0x22 => Some(if shift { 'G' } else { 'g' }),
            0x23 => Some(if shift { 'H' } else { 'h' }),
            0x17 => Some(if shift { 'I' } else { 'i' }),
            0x24 => Some(if shift { 'J' } else { 'j' }),
            0x25 => Some(if shift { 'K' } else { 'k' }),
            0x26 => Some(if shift { 'L' } else { 'l' }),
            0x32 => Some(if shift { 'M' } else { 'm' }),
            0x31 => Some(if shift { 'N' } else { 'n' }),
            0x18 => Some(if shift { 'O' } else { 'o' }),
            0x19 => Some(if shift { 'P' } else { 'p' }),
            0x10 => Some(if shift { 'Q' } else { 'q' }),
            0x13 => Some(if shift { 'R' } else { 'r' }),
            0x1F => Some(if shift { 'S' } else { 's' }),
            0x14 => Some(if shift { 'T' } else { 't' }),
            0x16 => Some(if shift { 'U' } else { 'u' }),
            0x2F => Some(if shift { 'V' } else { 'v' }),
            0x11 => Some(if shift { 'W' } else { 'w' }),
            0x2D => Some(if shift { 'X' } else { 'x' }),
            0x15 => Some(if shift { 'Y' } else { 'y' }),
            0x2C => Some(if shift { 'Z' } else { 'z' }),
            0x02 => Some(if shift { '!' } else { '1' }),
            0x03 => Some(if shift { '@' } else { '2' }),
            0x04 => Some(if shift { '#' } else { '3' }),
            0x05 => Some(if shift { '$' } else { '4' }),
            0x06 => Some(if shift { '%' } else { '5' }),
            0x07 => Some(if shift { '^' } else { '6' }),
            0x08 => Some(if shift { '&' } else { '7' }),
            0x09 => Some(if shift { '*' } else { '8' }),
            0x0A => Some(if shift { '(' } else { '9' }),
            0x0B => Some(if shift { ')' } else { '0' }),
            0x39 => Some(' '),
            0x0C => Some(if shift { '_' } else { '-' }),
            0x0D => Some(if shift { '+' } else { '=' }),
            0x1A => Some(if shift { '{' } else { '[' }),
            0x1B => Some(if shift { '}' } else { ']' }),
            0x27 => Some(if shift { ':' } else { ';' }),
            0x28 => Some(if shift { '"' } else { '\'' }),
            0x33 => Some(if shift { '<' } else { ',' }),
            0x34 => Some(if shift { '>' } else { '.' }),
            0x35 => Some(if shift { '?' } else { '/' }),
            0x29 => Some(if shift { '~' } else { '`' }),
            0x2B => Some(if shift { '|' } else { '\\' }),
            _ => None,
        }
    }
}

} // verus!
