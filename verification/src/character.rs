use vstd::prelude::*;

verus! {

/// One glyph of a rasterized font face: the texture that holds its bitmap,
/// the bitmap's size, its offset from the pen, and the advance to the next
/// glyph in 1/64 of a pixel.
#[derive(Debug, Clone, Copy)]
pub struct Character {
    pub texture_id: i32,
    pub size: (i32, i32),
    pub bearing: (i32, i32),
    pub advance: i32,
}

impl Character {
    pub fn new(texture_id: i32, size: (i32, i32), bearing: (i32, i32), advance: i32) -> (character: Character)
        ensures
            character == (Character { texture_id, size, bearing, advance }),
    {
        Character { texture_id, size, bearing, advance }
    }

    /// The advance in whole pixels, rounded down.
    pub open spec fn spec_advance_pixels(&self) -> int {
        self.advance as int / 64
    }

    /// The advance in whole pixels, rounded down.
    pub fn advance_pixels(&self) -> (pixels: i32)
        ensures
            pixels == self.spec_advance_pixels(),
    {
        let advance = self.advance;
        assert(advance >> 6 == advance / 64) by (bit_vector);
        advance >> 6
    }
}

} // verus!
