//! The glyph: fifteen pattern bits and a fill colour laid out on a 5×5 image
//! that mirrors about its centre column, and the black-and-white mask of it.

use vstd::prelude::*;
use vstd::utf8::encode_utf8;
use crate::canvas::{get_pixel, new_image, pixels, rgb, set_pixel};
use crate::hash::{hash, hash_spec};
use crate::pattern::{get_parts, hue, pattern, Palette, HUES};

verus! {

/// The side of a glyph, in cells.
pub const SIDE: u32 = 5;

/// The number of cells of a glyph, and so of entries of a mask.
pub const CELLS: usize = 25;

/// The colour of a cell that is left blank.
pub open spec fn white() -> (u8, u8, u8) {
    (255u8, 255u8, 255u8)
}

/// Whether `at`, as `(column, row)`, is a cell of the 5×5 grid.
pub open spec fn in_grid(at: (int, int)) -> bool {
    0 <= at.0 < SIDE && 0 <= at.1 < SIDE
}

/// The cells of the grid.
pub open spec fn grid() -> Set<(int, int)> {
    Set::new(|at: (int, int)| in_grid(at))
}

/// The index of the pattern bit that decides the cell at `(column, row)`:
/// bits 0 to 4 run down the centre column, bits 5 to 9 down columns 1 and 3,
/// bits 10 to 14 down columns 0 and 4.
pub open spec fn deciding_bit(at: (int, int)) -> int {
    if at.0 == 2 {
        at.1
    } else if at.0 == 1 || at.0 == 3 {
        5 + at.1
    } else {
        10 + at.1
    }
}

/// The glyph that a fill colour and fifteen pattern bits draw: a cell is
/// white where its deciding bit is set, and has the fill colour elsewhere.
pub open spec fn drawing(fill: (u8, u8, u8), pattern: Seq<bool>) -> Map<(int, int), (u8, u8, u8)> {
    Map::new(
        |at: (int, int)| in_grid(at),
        |at: (int, int)|
            if pattern[deciding_bit(at)] {
                white()
            } else {
                fill
            },
    )
}

/// The mask of a 5×5 image, row by row: entry `5 * row + column` tells
/// whether the pixel there is anything but pure white.
pub open spec fn mask_of(image: Map<(int, int), (u8, u8, u8)>) -> Seq<bool> {
    Seq::new(CELLS as nat, |i: int| image[(i % 5, i / 5)] != white())
}

/// The hash of a text: the hash of its UTF-8 encoding.
pub open spec fn text_hash(text: Seq<char>) -> u32 {
    hash_spec(encode_utf8(text))
}

/// The glyph of a text under a palette.
pub open spec fn glyph_of(text: Seq<char>, palette: Seq<(u8, u8, u8)>) -> Map<
    (int, int),
    (u8, u8, u8),
> {
    drawing(palette[hue(text_hash(text)) as int], pattern(text_hash(text)))
}

/// Every drawing mirrors about its centre column: in each row the outer
/// cells are alike, and so are the two cells next to the centre.
pub proof fn drawing_is_mirrored(fill: (u8, u8, u8), pattern: Seq<bool>, y: int)
    requires
        0 <= y < SIDE,
    ensures
        drawing(fill, pattern)[(0, y)] == drawing(fill, pattern)[(4, y)],
        drawing(fill, pattern)[(1, y)] == drawing(fill, pattern)[(3, y)],
{
    assert(in_grid((0, y)) && in_grid((4, y)) && in_grid((1, y)) && in_grid((3, y)));
}

/// Under a fill colour other than white the mask is the pattern read
/// backwards: a cell is on exactly where its deciding bit is clear.
pub proof fn mask_follows_pattern(fill: (u8, u8, u8), pattern: Seq<bool>, i: int)
    requires
        fill != white(),
        0 <= i < CELLS,
    ensures
        mask_of(drawing(fill, pattern))[i] == !pattern[deciding_bit((i % 5, i / 5))],
{
    assert(in_grid((i % 5, i / 5)));
}

/// The mask does not depend on the fill colour: two drawings of the same
/// pattern bits have the same mask, whatever their fill colours, as long as
/// neither is white (a white fill cannot be told from a blank cell).
pub proof fn mask_ignores_colour(first: (u8, u8, u8), second: (u8, u8, u8), pattern: Seq<bool>)
    requires
        first != white(),
        second != white(),
    ensures
        mask_of(drawing(first, pattern)) == mask_of(drawing(second, pattern)),
{
    assert forall|i: int| 0 <= i < CELLS implies mask_of(drawing(first, pattern))[i] == mask_of(
        drawing(second, pattern),
    )[i] by {
        mask_follows_pattern(first, pattern, i);
        mask_follows_pattern(second, pattern, i);
    }
    assert(mask_of(drawing(first, pattern)) =~= mask_of(drawing(second, pattern)));
}

/// The mask of a text is a function of the text and the palette: two
/// derivations from the same text and palette give the same mask.
pub proof fn mask_of_text_is_stable(
    first: Seq<char>,
    second: Seq<char>,
    palette: Seq<(u8, u8, u8)>,
)
    requires
        first == second,
    ensures
        mask_of(glyph_of(first, palette)) == mask_of(glyph_of(second, palette)),
{
}

/// A 5×5 image of two colours at most.
pub struct Glyph {
    image: bmp::Image,
}

impl View for Glyph {
    type V = Map<(int, int), (u8, u8, u8)>;

    closed spec fn view(&self) -> Map<(int, int), (u8, u8, u8)> {
        pixels(self.image)
    }
}

impl Glyph {
    #[verifier::type_invariant]
    spec fn five_by_five(self) -> bool {
        pixels(self.image).dom() == grid()
    }

    /// The pixel in column `x` of row `y`.
    pub fn pixel(&self, x: u32, y: u32) -> (value: bmp::Pixel)
        requires
            x < SIDE,
            y < SIDE,
        ensures
            rgb(value) == self@[(x as int, y as int)],
    {
        proof {
            use_type_invariant(self);
            assert(in_grid((x as int, y as int)));
        }
        get_pixel(&self.image, x, y)
    }

    /// The image itself, as `bmp` has it.
    pub fn image(&self) -> (image: &bmp::Image)
        ensures
            pixels(*image) == self@,
    {
        &self.image
    }

    /// Gives up the glyph for the image it holds.
    pub fn into_image(self) -> (image: bmp::Image)
        ensures
            pixels(image) == self@,
    {
        self.image
    }
}

/// Lays fifteen pattern bits out on a fresh image.
pub fn draw(fill: bmp::Pixel, pattern: &[bool; 15]) -> (glyph: Glyph)
    ensures
        glyph@ == drawing(rgb(fill), pattern@),
{
    let mut image = new_image(SIDE, SIDE);
    assert(pixels(image).dom() =~= grid());
    let mut i: u32 = 0;
    while i < 15
        invariant
            i <= 15,
            pixels(image).dom() == grid(),
            forall|at: (int, int)|
                in_grid(at) && deciding_bit(at) < i ==> #[trigger] pixels(image)[at] == drawing(
                    rgb(fill),
                    pattern@,
                )[at],
        decreases 15 - i,
    {
        let color = if pattern[i as usize] {
            bmp::Pixel { r: 255, g: 255, b: 255 }
        } else {
            fill
        };
        if i < 5 {
            assert(in_grid((2, i as int)));
            set_pixel(&mut image, 2, i, color);
        } else if i < 10 {
            assert(in_grid((1, i - 5)));
            assert(in_grid((3, i - 5)));
            set_pixel(&mut image, 1, i - 5, color);
            set_pixel(&mut image, 3, i - 5, color);
        } else {
            assert(in_grid((0, i - 10)));
            assert(in_grid((4, i - 10)));
            set_pixel(&mut image, 0, i - 10, color);
            set_pixel(&mut image, 4, i - 10, color);
        }
        assert(pixels(image).dom() =~= grid());
        i = i + 1;
    }
    assert(pixels(image) =~= drawing(rgb(fill), pattern@));
    Glyph { image }
}

/// Draws the glyph of `text`: its UTF-8 bytes are hashed, the hash picks
/// the fill colour of its hue from `palette` and the pattern bits.
pub fn make_image(text: &str, palette: &Palette) -> (glyph: Glyph)
    ensures
        palette@.len() == HUES,
        glyph@ == glyph_of(text@, palette@),
{
    let hash = hash(text.as_bytes());
    let parts = get_parts(hash, palette);
    draw(parts.0, &parts.1)
}

/// Reduces a glyph to its mask.
pub fn to_mask(glyph: &Glyph) -> (mask: [bool; 25])
    ensures
        mask@ == mask_of(glyph@),
{
    let mut mask = [false; 25];
    let mut y: u32 = 0;
    while y < 5
        invariant
            y <= 5,
            forall|i: int| 0 <= i < 5 * y ==> mask[i] == mask_of(glyph@)[i],
        decreases 5 - y,
    {
        let mut x: u32 = 0;
        while x < 5
            invariant
                y < 5,
                x <= 5,
                forall|i: int| 0 <= i < 5 * y + x ==> mask[i] == mask_of(glyph@)[i],
            decreases 5 - x,
        {
            let pixel = glyph.pixel(x, y);
            mask[(y * 5 + x) as usize] = pixel.r != 255 || pixel.g != 255 || pixel.b != 255;
            x = x + 1;
        }
        y = y + 1;
    }
    assert(mask@ =~= mask_of(glyph@));
    mask
}

/// Whether the mask of `glyph` is `target`. The cells are compared row by
/// row, and the first one that differs ends the comparison.
pub fn shows(glyph: &Glyph, target: &[bool; 25]) -> (same: bool)
    ensures
        same == (mask_of(glyph@) == target@),
{
    let mut y: u32 = 0;
    while y < 5
        invariant
            y <= 5,
            forall|i: int| 0 <= i < 5 * y ==> target[i] == mask_of(glyph@)[i],
        decreases 5 - y,
    {
        let mut x: u32 = 0;
        while x < 5
            invariant
                y < 5,
                x <= 5,
                forall|i: int| 0 <= i < 5 * y + x ==> target[i] == mask_of(glyph@)[i],
            decreases 5 - x,
        {
            let pixel = glyph.pixel(x, y);
            let value = pixel.r != 255 || pixel.g != 255 || pixel.b != 255;
            if target[(y * 5 + x) as usize] != value {
                assert(target@[5 * y + x] != mask_of(glyph@)[5 * y + x]);
                return false;
            }
            x = x + 1;
        }
        y = y + 1;
    }
    assert(mask_of(glyph@) =~= target@);
    true
}

} // verus!
