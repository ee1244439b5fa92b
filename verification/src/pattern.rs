//! From a hash to the parts of a glyph: a hue, which picks the fill colour
//! from a palette, and fifteen pattern bits.

use vstd::prelude::*;
use crate::canvas::rgb;

verus! {

/// The number of hues, and so of colours in a palette.
pub const HUES: u32 = 360;

/// Bit `i` of `word`, bit 0 being the least significant.
pub open spec fn bit(word: u16, i: u32) -> bool {
    (word >> i) & 1 != 0
}

/// The sixteen bits of `word`, least significant first.
pub fn bits(word: u16) -> (out: [bool; 16])
    ensures
        forall|i: int| 0 <= i < 16 ==> out[i] == bit(word, i as u32),
{
    let mut out = [false; 16];
    let mut i: u32 = 0;
    while i < 16
        invariant
            i <= 16,
            forall|j: int| 0 <= j < i ==> out[j] == bit(word, j as u32),
        decreases 16 - i,
    {
        out[i as usize] = (word >> i) & 1 != 0;
        i = i + 1;
    }
    out
}

/// The hue that a hash selects, in degrees.
pub open spec fn hue(hash: u32) -> u32 {
    hash % HUES
}

/// The sixteen bits that follow the hue in a hash: the low half of the
/// quotient by 360.
pub open spec fn pattern_word(hash: u32) -> u16 {
    ((hash / HUES) & 0xFFFF) as u16
}

/// Pattern bit `i` of a hash, for `i` from 0 to 14. A set bit leaves its
/// cells white.
pub open spec fn pattern_bit(hash: u32, i: int) -> bool {
    bit(pattern_word(hash), i as u32)
}

/// The fifteen pattern bits of a hash, in index order.
pub open spec fn pattern(hash: u32) -> Seq<bool> {
    Seq::new(15, |i: int| pattern_bit(hash, i))
}

/// One fill colour for each hue from 0 to 359 degrees. How a hue becomes a
/// colour is the caller's to decide: the palette holds the outcome.
pub struct Palette {
    colours: Vec<bmp::Pixel>,
}

impl View for Palette {
    type V = Seq<(u8, u8, u8)>;

    closed spec fn view(&self) -> Seq<(u8, u8, u8)> {
        Seq::new(self.colours@.len(), |i: int| rgb(self.colours@[i]))
    }
}

impl Palette {
    #[verifier::type_invariant]
    spec fn complete(self) -> bool {
        self.colours@.len() == HUES
    }

    /// Takes `colours[h]` as the fill colour of hue `h`. A palette needs
    /// exactly 360 colours; any other number is refused.
    pub fn new(colours: Vec<bmp::Pixel>) -> (made: Option<Palette>)
        ensures
            made is Some <==> colours@.len() == HUES,
            made matches Some(palette) ==> palette@ == colours@.map_values(
                |pixel: bmp::Pixel| rgb(pixel),
            ),
    {
        if colours.len() == HUES as usize {
            let palette = Palette { colours };
            assert(palette@ =~= colours@.map_values(|pixel: bmp::Pixel| rgb(pixel)));
            Some(palette)
        } else {
            None
        }
    }

    /// The fill colour of `hue`.
    pub fn colour(&self, hue: u32) -> (pixel: bmp::Pixel)
        requires
            hue < HUES,
        ensures
            self@.len() == HUES,
            rgb(pixel) == self@[hue as int],
    {
        proof {
            use_type_invariant(self);
        }
        self.colours[hue as usize]
    }
}

/// Splits a hash into the fill colour of its hue and its pattern bits.
pub fn get_parts(hash: u32, palette: &Palette) -> (parts: (bmp::Pixel, [bool; 15]))
    ensures
        palette@.len() == HUES,
        rgb(parts.0) == palette@[hue(hash) as int],
        parts.1@ == pattern(hash),
{
    let hue: u32 = hash % HUES;
    let rest: u32 = hash / HUES;
    let color = palette.colour(hue);
    let low: u32 = rest & 0xFFFF;
    assert(low <= 0xFFFF) by (bit_vector)
        requires
            low == rest & 0xFFFF,
    ;
    let all = bits(low as u16);
    let mut pattern_bits = [false; 15];
    let mut i: usize = 0;
    while i < 15
        invariant
            i <= 15,
            forall|j: int| 0 <= j < 16 ==> all[j] == bit(pattern_word(hash), j as u32),
            forall|j: int| 0 <= j < i ==> pattern_bits[j] == pattern_bit(hash, j),
        decreases 15 - i,
    {
        pattern_bits[i] = all[i];
        i = i + 1;
    }
    assert(pattern_bits@ =~= pattern(hash));
    (color, pattern_bits)
}

} // verus!
