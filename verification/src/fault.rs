use vstd::prelude::*;

verus! {

/// Why the machine stopped. Every fault is fatal to the run.
#[derive(Clone, Copy, Debug, PartialEq, Eq, Structural)]
pub enum Fault {
    /// An access of `count` bytes starting at `address` would pass the end of memory.
    MemoryOutOfBounds { address: usize, count: usize },
    /// A subroutine call was made with every stack slot in use.
    StackOverflow,
    /// A return was executed with no call outstanding.
    StackUnderflow,
    /// A key index above 0xF was tested.
    UnknownKey { key: u8 },
    /// A glyph above 0xF was requested from the font table.
    UnknownGlyph { glyph: u8 },
}

} // verus!
