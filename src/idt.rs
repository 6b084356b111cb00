//! Interrupt dispatch table entries and the register programming sequences
//! for the two cascaded interrupt controllers and the interval timer.
use vstd::prelude::*;

verus! {

/// Number of entries in the dispatch table.
pub const IDT_SIZE: usize = 256;

/// Code segment selector of the kernel.
pub const KERNEL_CODE_SELECTOR: u16 = 0x08;

/// Present, ring 0, 32-bit interrupt gate.
pub const INTERRUPT_GATE: u8 = 0x8E;

/// Bytes taken by one entry.
pub const IDT_ENTRY_SIZE: usize = 8;

/// One gate of the interrupt dispatch table.
#[derive(Clone, Copy)]
pub struct IdtEntry {
    pub offset_low: u16,
    pub selector: u16,
    pub zero: u8,
    pub type_attr: u8,
    pub offset_high: u16,
}

impl IdtEntry {
    /// The handler address that the entry points at.
    pub open spec fn handler(&self) -> int {
        self.offset_high as int * 0x10000 + self.offset_low as int
    }

    pub fn empty() -> (r: Self)
        ensures
            r.offset_low == 0,
            r.selector == 0,
            r.zero == 0,
            r.type_attr == 0,
            r.offset_high == 0,
    {
        IdtEntry { offset_low: 0, selector: 0, zero: 0, type_attr: 0, offset_high: 0 }
    }

    /// Points the entry at `handler` as a present kernel interrupt gate.
    pub fn set_handler(&mut self, handler: u32)
        ensures
            final(self).handler() == handler as int,
            final(self).selector == KERNEL_CODE_SELECTOR,
            final(self).zero == 0,
            final(self).type_attr == INTERRUPT_GATE,
    {
        assert(handler & 0xFFFF <= 0xFFFF) by (bit_vector);
        assert((handler >> 16) & 0xFFFF <= 0xFFFF) by (bit_vector);
        assert(handler == ((handler >> 16) & 0xFFFF) * 0x10000 + (handler & 0xFFFF))
            by (bit_vector);
        let low = (handler & 0xFFFF) as u16;
        let high = ((handler >> 16) & 0xFFFF) as u16;
        self.offset_low = low;
        self.offset_high = high;
        self.selector = KERNEL_CODE_SELECTOR;
        self.zero = 0;
        self.type_attr = INTERRUPT_GATE;
    }
}

/// The operand of the instruction that loads the dispatch table.
pub struct IdtPointer {
    pub limit: u16,
    pub base: u32,
}

impl IdtPointer {
    /// The pointer for a full table of `IDT_SIZE` entries at `base`.
    pub fn for_table(base: u32) -> (r: Self)
        ensures
            r.limit == IDT_SIZE * IDT_ENTRY_SIZE - 1,
            r.base == base,
    {
        IdtPointer { limit: (IDT_SIZE * IDT_ENTRY_SIZE - 1) as u16, base }
    }
}

/// Command and data ports of the primary and secondary controllers.
pub const PIC1_COMMAND: u16 = 0x20;
pub const PIC1_DATA: u16 = 0x21;
pub const PIC2_COMMAND: u16 = 0xA0;
pub const PIC2_DATA: u16 = 0xA1;

/// Vector of the first line of each controller after remapping.
pub const PIC1_OFFSET: u8 = 0x20;
pub const PIC2_OFFSET: u8 = 0x28;

/// Masks after setup: the primary lets through the timer (line 0) and the
/// keyboard (line 1); the secondary lets nothing through.
pub const PIC1_MASK: u8 = 0xFC;
pub const PIC2_MASK: u8 = 0xFF;

/// The (port, value) writes that initialise both controllers in cascade
/// mode, remap their lines to `PIC1_OFFSET` and `PIC2_OFFSET`, and mask every
/// line but the timer and the keyboard, in the order they must be written.
pub fn pic_init_sequence() -> (r: Vec<(u16, u8)>)
    ensures
        r@ == seq![
            (PIC1_COMMAND, 0x11u8),
            (PIC2_COMMAND, 0x11u8),
            (PIC1_DATA, PIC1_OFFSET),
            (PIC2_DATA, PIC2_OFFSET),
            (PIC1_DATA, 0x04u8),
            (PIC2_DATA, 0x02u8),
            (PIC1_DATA, 0x01u8),
            (PIC2_DATA, 0x01u8),
            (PIC1_DATA, PIC1_MASK),
            (PIC2_DATA, PIC2_MASK),
        ],
{
    let mut r: Vec<(u16, u8)> = Vec::new();
    // initialise, expect three more words
    r.push((PIC1_COMMAND, 0x11));
    r.push((PIC2_COMMAND, 0x11));
    // vector offsets
    r.push((PIC1_DATA, PIC1_OFFSET));
    r.push((PIC2_DATA, PIC2_OFFSET));
    // cascade wiring: secondary on line 2
    r.push((PIC1_DATA, 0x04));
    r.push((PIC2_DATA, 0x02));
    // 8086 mode
    r.push((PIC1_DATA, 0x01));
    r.push((PIC2_DATA, 0x01));
    // masks
    r.push((PIC1_DATA, PIC1_MASK));
    r.push((PIC2_DATA, PIC2_MASK));
    assert(r@ =~= seq![
        (PIC1_COMMAND, 0x11u8),
        (PIC2_COMMAND, 0x11u8),
        (PIC1_DATA, PIC1_OFFSET),
        (PIC2_DATA, PIC2_OFFSET),
        (PIC1_DATA, 0x04u8),
        (PIC2_DATA, 0x02u8),
        (PIC1_DATA, 0x01u8),
        (PIC2_DATA, 0x01u8),
        (PIC1_DATA, PIC1_MASK),
        (PIC2_DATA, PIC2_MASK),
    ]);
    r
}

pub const PIT_COMMAND: u16 = 0x43;
pub const PIT_CHANNEL0: u16 = 0x40;

/// Channel 0, low then high byte, square wave mode.
pub const PIT_MODE: u8 = 0x36;

/// Divisor of the timer's base frequency that gives about one hundred ticks
/// per second.
pub const PIT_DIVISOR: u16 = 11932;

/// The (port, value) writes that start channel 0 of the interval timer with
/// `divisor`: the mode, then the divisor's low byte, then its high byte.
pub fn pit_init_sequence(divisor: u16) -> (r: Vec<(u16, u8)>)
    ensures
        r@ == seq![
            (PIT_COMMAND, PIT_MODE),
            (PIT_CHANNEL0, (divisor % 256) as u8),
            (PIT_CHANNEL0, (divisor / 256) as u8),
        ],
{
    let low = (divisor & 0xFF) as u8;
    let high = ((divisor >> 8) & 0xFF) as u8;
    assert(divisor & 0xFF == divisor % 256) by (bit_vector);
    assert((divisor >> 8) & 0xFF == divisor / 256) by (bit_vector);
    let mut r: Vec<(u16, u8)> = Vec::new();
    r.push((PIT_COMMAND, PIT_MODE));
    r.push((PIT_CHANNEL0, low));
    r.push((PIT_CHANNEL0, high));
    assert(r@ =~= seq![
        (PIT_COMMAND, PIT_MODE),
        (PIT_CHANNEL0, (divisor % 256) as u8),
        (PIT_CHANNEL0, (divisor / 256) as u8),
    ]);
    r
}

} // verus!
