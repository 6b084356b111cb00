//! Tones for the PC speaker: note frequencies and the timer divisor that
//! produces a frequency.
use vstd::prelude::*;

verus! {

/// Input clock of the interval timer, in Hz.
pub const PIT_FREQUENCY: u32 = 1193180;

/// Frequencies (Hz) of the notes of the middle octave.
pub struct Notes;

impl Notes {
    pub const C4: u16 = 262;
    pub const D4: u16 = 294;
    pub const E4: u16 = 330;
    pub const F4: u16 = 349;
    pub const G4: u16 = 392;
    pub const A4: u16 = 440;
    pub const B4: u16 = 494;
    pub const C5: u16 = 523;
}

/// The 16-bit divisor that makes channel 2 of the timer sound
/// `frequency_hz` (its low 16 bits, as the timer takes them); `None` for 0 Hz,
/// which is silence.
pub fn tone_divisor(frequency_hz: u16) -> (r: Option<u16>)
    ensures
        frequency_hz == 0 ==> r is None,
        frequency_hz != 0 ==> r == Some(((PIT_FREQUENCY / frequency_hz as u32) % 0x10000) as u16),
{
    if frequency_hz == 0 {
        return None;
    }
    let d = PIT_FREQUENCY / frequency_hz as u32;
    Some((d % 0x10000) as u16)
}

} // verus!
