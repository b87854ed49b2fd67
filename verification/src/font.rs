//! The two immutable font tables seeded at the bottom of memory: 5-byte
//! glyphs for the hexadecimal digits 0 to F, then 10-byte large glyphs for
//! the decimal digits 0 to 9.

use vstd::prelude::*;

verus! {

/// Number of bytes in the small font (16 glyphs of 5 bytes).
pub const FONT_SMALL_SIZE: usize = 80;

/// Number of font bytes seeded at the bottom of memory (the small font
/// followed by the 100-byte big font).
pub const FONT_TOTAL_SIZE: usize = 180;

/// The font bytes: the small font's 16 glyphs, then the big font's 10.
#[verifier::opaque]
pub open spec fn font_seq() -> Seq<u8> {
    seq![
        0xF0u8, 0x90u8, 0x90u8, 0x90u8, 0xF0u8, 0x20u8, 0x60u8, 0x20u8, 0x20u8, 0x70u8,
        0xF0u8, 0x10u8, 0xF0u8, 0x80u8, 0xF0u8, 0xF0u8, 0x10u8, 0xF0u8, 0x10u8, 0xF0u8,
        0x90u8, 0x90u8, 0xF0u8, 0x10u8, 0x10u8, 0xF0u8, 0x80u8, 0xF0u8, 0x10u8, 0xF0u8,
        0xF0u8, 0x80u8, 0xF0u8, 0x90u8, 0xF0u8, 0xF0u8, 0x10u8, 0x20u8, 0x40u8, 0x40u8,
        0xF0u8, 0x90u8, 0xF0u8, 0x90u8, 0xF0u8, 0xF0u8, 0x90u8, 0xF0u8, 0x10u8, 0xF0u8,
        0xF0u8, 0x90u8, 0xF0u8, 0x90u8, 0x90u8, 0xE0u8, 0x90u8, 0xE0u8, 0x90u8, 0xE0u8,
        0xF0u8, 0x80u8, 0x80u8, 0x80u8, 0xF0u8, 0xE0u8, 0x90u8, 0x90u8, 0x90u8, 0xE0u8,
        0xF0u8, 0x80u8, 0xF0u8, 0x80u8, 0xF0u8, 0xF0u8, 0x80u8, 0xF0u8, 0x80u8, 0x80u8,
        0x3Cu8, 0x7Eu8, 0xC3u8, 0xC3u8, 0xC3u8, 0xC3u8, 0xC3u8, 0xC3u8, 0x7Eu8, 0x3Cu8,
        0x18u8, 0x38u8, 0x58u8, 0x18u8, 0x18u8, 0x18u8, 0x18u8, 0x18u8, 0x18u8, 0x7Eu8,
        0x3Eu8, 0x7Fu8, 0xC3u8, 0x06u8, 0x0Cu8, 0x18u8, 0x30u8, 0x60u8, 0xFFu8, 0xFFu8,
        0x3Cu8, 0x7Eu8, 0xC3u8, 0x03u8, 0x0Eu8, 0x0Eu8, 0x03u8, 0xC3u8, 0x7Eu8, 0x3Cu8,
        0x06u8, 0x0Eu8, 0x1Eu8, 0x36u8, 0x66u8, 0xC6u8, 0xFFu8, 0xFFu8, 0x06u8, 0x06u8,
        0xFFu8, 0xFFu8, 0xC0u8, 0xC0u8, 0xFCu8, 0xFEu8, 0x03u8, 0xC3u8, 0x7Eu8, 0x3Cu8,
        0x3Eu8, 0x7Cu8, 0xC0u8, 0xC0u8, 0xFCu8, 0xFEu8, 0xC3u8, 0xC3u8, 0x7Eu8, 0x3Cu8,
        0xFFu8, 0xFFu8, 0x03u8, 0x06u8, 0x0Cu8, 0x18u8, 0x30u8, 0x60u8, 0x60u8, 0x60u8,
        0x3Cu8, 0x7Eu8, 0xC3u8, 0xC3u8, 0x7Eu8, 0x7Eu8, 0xC3u8, 0xC3u8, 0x7Eu8, 0x3Cu8,
        0x3Cu8, 0x7Eu8, 0xC3u8, 0xC3u8, 0x7Fu8, 0x3Fu8, 0x03u8, 0x03u8, 0x3Eu8, 0x7Cu8,
    ]
}

/// Builds the font table as a byte vector.
#[verifier::rlimit(100)]
pub fn font_bytes() -> (v: Vec<u8>)
    ensures
        v@ == font_seq(),
        v@.len() == 180,
{
    let table: [u8; 180] = [
        0xF0, 0x90, 0x90, 0x90, 0xF0, 0x20, 0x60, 0x20, 0x20, 0x70,
        0xF0, 0x10, 0xF0, 0x80, 0xF0, 0xF0, 0x10, 0xF0, 0x10, 0xF0,
        0x90, 0x90, 0xF0, 0x10, 0x10, 0xF0, 0x80, 0xF0, 0x10, 0xF0,
        0xF0, 0x80, 0xF0, 0x90, 0xF0, 0xF0, 0x10, 0x20, 0x40, 0x40,
        0xF0, 0x90, 0xF0, 0x90, 0xF0, 0xF0, 0x90, 0xF0, 0x10, 0xF0,
        0xF0, 0x90, 0xF0, 0x90, 0x90, 0xE0, 0x90, 0xE0, 0x90, 0xE0,
        0xF0, 0x80, 0x80, 0x80, 0xF0, 0xE0, 0x90, 0x90, 0x90, 0xE0,
        0xF0, 0x80, 0xF0, 0x80, 0xF0, 0xF0, 0x80, 0xF0, 0x80, 0x80,
        0x3C, 0x7E, 0xC3, 0xC3, 0xC3, 0xC3, 0xC3, 0xC3, 0x7E, 0x3C,
        0x18, 0x38, 0x58, 0x18, 0x18, 0x18, 0x18, 0x18, 0x18, 0x7E,
        0x3E, 0x7F, 0xC3, 0x06, 0x0C, 0x18, 0x30, 0x60, 0xFF, 0xFF,
        0x3C, 0x7E, 0xC3, 0x03, 0x0E, 0x0E, 0x03, 0xC3, 0x7E, 0x3C,
        0x06, 0x0E, 0x1E, 0x36, 0x66, 0xC6, 0xFF, 0xFF, 0x06, 0x06,
        0xFF, 0xFF, 0xC0, 0xC0, 0xFC, 0xFE, 0x03, 0xC3, 0x7E, 0x3C,
        0x3E, 0x7C, 0xC0, 0xC0, 0xFC, 0xFE, 0xC3, 0xC3, 0x7E, 0x3C,
        0xFF, 0xFF, 0x03, 0x06, 0x0C, 0x18, 0x30, 0x60, 0x60, 0x60,
        0x3C, 0x7E, 0xC3, 0xC3, 0x7E, 0x7E, 0xC3, 0xC3, 0x7E, 0x3C,
        0x3C, 0x7E, 0xC3, 0xC3, 0x7F, 0x3F, 0x03, 0x03, 0x3E, 0x7C,
    ];
    proof {
        reveal(font_seq);
        assert(forall|j: int| 0 <= j < 180 ==> table@[j] == font_seq()[j]);
    }
    let mut v: Vec<u8> = Vec::new();
    let mut idx: usize = 0;
    while idx < 180
        invariant
            idx <= 180,
            v@.len() == idx,
            forall|j: int| 0 <= j < idx ==> v@[j] == table@[j],
            forall|j: int| 0 <= j < 180 ==> table@[j] == font_seq()[j],
        decreases 180 - idx,
    {
        v.push(table[idx]);
        idx = idx + 1;
    }
    proof {
        assert(v@ =~= font_seq());
    }
    v
}

} // verus!
