//! Variant selection and the behaviour switches ("quirks") that change
//! instruction semantics without changing the dispatch table.

use vstd::prelude::*;

verus! {

/// Which of the three historical instruction sets is emulated.
#[derive(Copy, Clone, PartialEq, Eq, Structural, Debug)]
pub enum Variant {
    Chip8,
    SChip,
    XOChip,
}

/// Run-wide configuration: the variant plus independently toggleable
/// behaviour switches reproducing documented divergences between
/// interpreters of the same nominal instruction set.
#[derive(Copy, Clone, PartialEq, Eq, Structural, Debug)]
pub struct EmuConfig {
    pub variant: Variant,
    /// Scroll opcodes move by the nominal pixel count even in low resolution.
    pub quirk_legacyscroll: bool,
    /// The bitwise ALU opcodes force the flag register to 0 afterwards.
    pub quirk_vfreset: bool,
    /// Block store/load opcodes advance the memory pointer afterwards.
    pub quirk_memory: bool,
    /// Sprite drawing stalls until the first step of a rendering frame.
    pub quirk_displaywait: bool,
    /// Sprite pixels past the screen edge are dropped instead of wrapping.
    pub quirk_clipping: bool,
    /// The shift opcodes ignore the source register and shift in place.
    pub quirk_shifting: bool,
    /// The offset jump reads the register named by the address's high nibble.
    pub quirk_jumping: bool,
    /// A sprite pixel dropped by clipping still counts as a collision.
    pub quirk_clipcollision: bool,
}

/// Screen width in pixels for a variant.
pub open spec fn width_of(v: Variant) -> nat {
    match v {
        Variant::Chip8 => 64,
        Variant::SChip => 128,
        Variant::XOChip => 128,
    }
}

/// Screen height in pixels for a variant.
pub open spec fn height_of(v: Variant) -> nat {
    match v {
        Variant::Chip8 => 32,
        Variant::SChip => 64,
        Variant::XOChip => 64,
    }
}

/// Memory size in bytes for a variant.
pub open spec fn ram_size_of(v: Variant) -> nat {
    match v {
        Variant::Chip8 => 4096,
        Variant::SChip => 4096,
        Variant::XOChip => 65536,
    }
}

} // verus!
