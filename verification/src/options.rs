//! What a machine is built with.

use vstd::prelude::*;

verus! {

/// Number of bytes in a font: sixteen glyphs of five rows each.
pub const FONT_SIZE: usize = 80;

/// The usual hexadecimal font, glyph 0 first.
pub open spec fn standard_font() -> Seq<u8> {
    seq![
        0xF0u8, 0x90, 0x90, 0x90, 0xF0,
        0x20, 0x60, 0x20, 0x20, 0x70,
        0xF0, 0x10, 0xF0, 0x80, 0xF0,
        0xF0, 0x10, 0xF0, 0x10, 0xF0,
        0x90, 0x90, 0xF0, 0x10, 0x10,
        0xF0, 0x80, 0xF0, 0x10, 0xF0,
        0xF0, 0x80, 0xF0, 0x90, 0xF0,
        0xF0, 0x10, 0x20, 0x40, 0x40,
        0xF0, 0x90, 0xF0, 0x90, 0xF0,
        0xF0, 0x90, 0xF0, 0x10, 0xF0,
        0xF0, 0x90, 0xF0, 0x90, 0x90,
        0xE0, 0x90, 0xE0, 0x90, 0xE0,
        0xF0, 0x80, 0x80, 0x80, 0xF0,
        0xE0, 0x90, 0x90, 0x90, 0xE0,
        0xF0, 0x80, 0xF0, 0x80, 0xF0,
        0xF0, 0x80, 0xF0, 0x80, 0x80,
    ]
}

/// How the instructions behave on which the historical machines differ.
#[derive(Clone, Copy, Debug, PartialEq, Eq, Structural)]
pub struct Quirks {
    /// The shifts `8xy6` and `8xyE` copy register `y` into `x` before they
    /// shift it; otherwise they shift `x` in place.
    pub shift_uses_copy: bool,
    /// The jump with offset `Bxnn` adds register `x`; otherwise it adds V0.
    pub jump_adds_vx: bool,
    /// The register dump and load leave the index register behind the last
    /// cell they touched; otherwise they leave it alone.
    pub dump_moves_index: bool,
    /// Adding to the index register sets VF when the index leaves the 12-bit
    /// address space; otherwise VF is left alone.
    pub index_overflow_flag: bool,
}

impl Quirks {
    /// The standard behaviour: shifts copy, jumps add V0, dumps leave the
    /// index alone, and the index flags its overflow.
    pub open spec fn standard() -> Quirks {
        Quirks {
            shift_uses_copy: true,
            jump_adds_vx: false,
            dump_moves_index: false,
            index_overflow_flag: true,
        }
    }
}

impl Default for Quirks {
    /// The standard behaviour.
    fn default() -> (q: Quirks)
        ensures
            q == Quirks::standard(),
    {
        Quirks {
            shift_uses_copy: true,
            jump_adds_vx: false,
            dump_moves_index: false,
            index_overflow_flag: true,
        }
    }
}

pub struct Options {
    pub font: [u8; FONT_SIZE],
    pub quirks: Quirks,
}

impl Options {
    /// Options with the usual font and the standard behaviour.
    pub fn new() -> (o: Options)
        ensures
            o.font@ == standard_font(),
            o.quirks == Quirks::standard(),
    {
        let o = Options {
            font: [
                0xF0, 0x90, 0x90, 0x90, 0xF0,
                0x20, 0x60, 0x20, 0x20, 0x70,
                0xF0, 0x10, 0xF0, 0x80, 0xF0,
                0xF0, 0x10, 0xF0, 0x10, 0xF0,
                0x90, 0x90, 0xF0, 0x10, 0x10,
                0xF0, 0x80, 0xF0, 0x10, 0xF0,
                0xF0, 0x80, 0xF0, 0x90, 0xF0,
                0xF0, 0x10, 0x20, 0x40, 0x40,
                0xF0, 0x90, 0xF0, 0x90, 0xF0,
                0xF0, 0x90, 0xF0, 0x10, 0xF0,
                0xF0, 0x90, 0xF0, 0x90, 0x90,
                0xE0, 0x90, 0xE0, 0x90, 0xE0,
                0xF0, 0x80, 0x80, 0x80, 0xF0,
                0xE0, 0x90, 0x90, 0x90, 0xE0,
                0xF0, 0x80, 0xF0, 0x80, 0xF0,
                0xF0, 0x80, 0xF0, 0x80, 0x80,
            ],
            quirks: Quirks::default(),
        };
        assert(o.font@ =~= standard_font());
        o
    }

    /// Options with a font and a behaviour of the caller's own.
    pub fn with(font: [u8; FONT_SIZE], quirks: Quirks) -> (o: Options)
        ensures
            o.font == font,
            o.quirks == quirks,
    {
        Options { font, quirks }
    }

    /// The font bytes, glyph 0 first.
    pub fn font(&self) -> (f: [u8; FONT_SIZE])
        ensures
            f == self.font,
    {
        self.font
    }

    /// The behaviour of the ambiguous instructions.
    pub fn quirks(&self) -> (q: Quirks)
        ensures
            q == self.quirks,
    {
        self.quirks
    }
}

} // verus!
