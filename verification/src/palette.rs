//! The fixed display-color palette and the index-to-color assignment.
//!
//! An author discovered at position `i` is shown in the palette color at
//! index `i` modulo the palette size, so colors wrap around once there are
//! more authors than palette entries.

use vstd::prelude::*;

verus! {

/// A display color as a plain red/green/blue triple.
#[derive(PartialEq, Eq, Structural, Clone, Copy, Debug)]
pub struct Rgb {
    pub red: u8,
    pub green: u8,
    pub blue: u8,
}

/// Number of distinct colors in the fixed palette.
pub const PALETTE_SIZE: usize = 10;

/// The color assigned to a discovery-order index: the palette entry at the
/// index taken modulo the palette size.
pub open spec fn spec_palette(i: int) -> Rgb {
    let k = i % (PALETTE_SIZE as int);
    if k == 0 {
        Rgb { red: 255, green: 0, blue: 0 }
    } else if k == 1 {
        Rgb { red: 0, green: 255, blue: 0 }
    } else if k == 2 {
        Rgb { red: 0, green: 0, blue: 255 }
    } else if k == 3 {
        Rgb { red: 255, green: 255, blue: 0 }
    } else if k == 4 {
        Rgb { red: 255, green: 0, blue: 255 }
    } else if k == 5 {
        Rgb { red: 0, green: 255, blue: 255 }
    } else if k == 6 {
        Rgb { red: 128, green: 0, blue: 0 }
    } else if k == 7 {
        Rgb { red: 0, green: 128, blue: 0 }
    } else if k == 8 {
        Rgb { red: 0, green: 0, blue: 128 }
    } else {
        Rgb { red: 128, green: 128, blue: 0 }
    }
}

/// Returns the display color for an author's discovery-order index.
pub fn color_for_index(index: usize) -> (c: Rgb)
    ensures
        c == spec_palette(index as int),
{
    let k: usize = index % PALETTE_SIZE;
    if k == 0 {
        Rgb { red: 255, green: 0, blue: 0 }
    } else if k == 1 {
        Rgb { red: 0, green: 255, blue: 0 }
    } else if k == 2 {
        Rgb { red: 0, green: 0, blue: 255 }
    } else if k == 3 {
        Rgb { red: 255, green: 255, blue: 0 }
    } else if k == 4 {
        Rgb { red: 255, green: 0, blue: 255 }
    } else if k == 5 {
        Rgb { red: 0, green: 255, blue: 255 }
    } else if k == 6 {
        Rgb { red: 128, green: 0, blue: 0 }
    } else if k == 7 {
        Rgb { red: 0, green: 128, blue: 0 }
    } else if k == 8 {
        Rgb { red: 0, green: 0, blue: 128 }
    } else {
        Rgb { red: 128, green: 128, blue: 0 }
    }
}

/// Colors of distinct indices below the palette size are pairwise distinct;
/// together with the wraparound law this pins the whole assignment down.
pub proof fn lemma_palette_distinct_below_size(i: int, j: int)
    requires
        0 <= i < j < PALETTE_SIZE as int,
    ensures
        spec_palette(i) != spec_palette(j),
{
}

/// The color assignment repeats with period equal to the palette size.
pub proof fn lemma_palette_periodic(i: int)
    requires
        i >= 0,
    ensures
        spec_palette(i + PALETTE_SIZE as int) == spec_palette(i),
{
    assert((i + PALETTE_SIZE as int) % (PALETTE_SIZE as int) == i % (PALETTE_SIZE as int))
        by (nonlinear_arith);
}

} // verus!
