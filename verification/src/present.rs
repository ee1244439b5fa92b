//! What the presentation of a glyph needs: the text that shows it on a
//! terminal, the answer that asks to keep it, and the file to keep it in.
//! Printing, reading the answer and writing the file are left to the caller.

use vstd::prelude::*;
use vstd::string::StringExecFns;
use crate::glyph::{glyph_of, make_image, white, Glyph};
use crate::pattern::Palette;

verus! {

/// The character of a decimal digit.
pub open spec fn digit(d: nat) -> char {
    (48 + d) as char
}

/// A number in decimal, without leading zeros.
pub open spec fn decimal(n: nat) -> Seq<char>
    decreases n,
{
    if n < 10 {
        seq![digit(n)]
    } else {
        decimal(n / 10).push(digit(n % 10))
    }
}

/// How one cell is shown: on a bright white ground, two spaces for a white
/// pixel, and otherwise two full blocks in the colour of the pixel.
pub open spec fn cell_text(pixel: (u8, u8, u8)) -> Seq<char> {
    if pixel == white() {
        "\x1B[107m"@ + "  "@
    } else {
        "\x1B[107m"@ + "\x1B[38;2;"@ + decimal(pixel.0 as nat) + ";"@ + decimal(pixel.1 as nat)
            + ";"@ + decimal(pixel.2 as nat) + "m██\x1B[0m"@
    }
}

/// How the first `columns` cells of row `y` are shown.
pub open spec fn cells_text(image: Map<(int, int), (u8, u8, u8)>, y: int, columns: int) -> Seq<char>
    decreases columns,
{
    if columns <= 0 {
        Seq::<char>::empty()
    } else {
        cells_text(image, y, columns - 1) + cell_text(image[(columns - 1, y)])
    }
}

/// How row `y` is shown: its five cells, then a reset and a line break.
pub open spec fn row_text(image: Map<(int, int), (u8, u8, u8)>, y: int) -> Seq<char> {
    cells_text(image, y, 5) + "\x1B[0m\n"@
}

/// How the first `rows` rows are shown.
pub open spec fn rows_text(image: Map<(int, int), (u8, u8, u8)>, rows: int) -> Seq<char>
    decreases rows,
{
    if rows <= 0 {
        Seq::<char>::empty()
    } else {
        rows_text(image, rows - 1) + row_text(image, rows - 1)
    }
}

/// All that is shown for a glyph: a heading with the text, the five rows,
/// and the prompt.
pub open spec fn display(text: Seq<char>, image: Map<(int, int), (u8, u8, u8)>) -> Seq<char> {
    "Displaying: "@ + text + "\n"@ + rows_text(image, 5)
        + "press enter to continue, save with `s`\n"@
}

/// The file that the glyph of `text` is kept in.
pub open spec fn file_of(text: Seq<char>) -> Seq<char> {
    "out/"@ + text + ".bmp"@
}

/// Appends `n` in decimal to `out`.
fn push_decimal(out: &mut String, n: u8)
    ensures
        final(out)@ == old(out)@ + decimal(n as nat),
{
    if n >= 100 {
        out.push((48 + n / 100) as char);
        out.push((48 + n / 10 % 10) as char);
        out.push((48 + n % 10) as char);
        assert(decimal(n as nat) =~= seq![
            digit(n as nat / 100),
            digit(n as nat / 10 % 10),
            digit(n as nat % 10),
        ]) by {
            reveal_with_fuel(decimal, 3);
        }
    } else if n >= 10 {
        out.push((48 + n / 10) as char);
        out.push((48 + n % 10) as char);
        assert(decimal(n as nat) =~= seq![digit(n as nat / 10), digit(n as nat % 10)]) by {
            reveal_with_fuel(decimal, 2);
        }
    } else {
        out.push((48 + n) as char);
    }
    assert(final(out)@ =~= old(out)@ + decimal(n as nat));
}

/// The text that shows `glyph` on a terminal that knows ANSI colours, under
/// a heading that names `text` and above the prompt for an answer.
pub fn show_image(text: &str, glyph: &Glyph) -> (shown: String)
    ensures
        shown@ == display(text@, glyph@),
{
    let mut out = String::new();
    out.append("Displaying: ");
    out.append(text);
    out.append("\n");
    let ghost head = out@;
    let mut y: u32 = 0;
    while y < 5
        invariant
            y <= 5,
            head == "Displaying: "@ + text@ + "\n"@,
            out@ == head + rows_text(glyph@, y as int),
        decreases 5 - y,
    {
        let ghost before = out@;
        let mut x: u32 = 0;
        while x < 5
            invariant
                y < 5,
                x <= 5,
                out@ == before + cells_text(glyph@, y as int, x as int),
            decreases 5 - x,
        {
            let ghost so_far = out@;
            out.append("\x1B[107m");
            let pixel = glyph.pixel(x, y);
            if pixel.r == 255 && pixel.g == 255 && pixel.b == 255 {
                out.append("  ");
            } else {
                out.append("\x1B[38;2;");
                push_decimal(&mut out, pixel.r);
                out.append(";");
                push_decimal(&mut out, pixel.g);
                out.append(";");
                push_decimal(&mut out, pixel.b);
                out.append("m██\x1B[0m");
            }
            assert(out@ =~= so_far + cell_text(glyph@[(x as int, y as int)]));
            assert(out@ =~= before + cells_text(glyph@, y as int, x + 1));
            x = x + 1;
        }
        out.append("\x1B[0m\n");
        assert(out@ =~= head + rows_text(glyph@, y + 1));
        y = y + 1;
    }
    out.append("press enter to continue, save with `s`\n");
    out
}

/// Whether the answer to the prompt asks to keep the glyph: it does when it
/// is the letter `y`.
pub fn confirms(answer: u8) -> (keep: bool)
    ensures
        keep == (answer == 'y' as u8),
{
    answer == 'y' as u8
}

/// The path of the file that the glyph of `text` is kept in: the text
/// itself, with the ending `.bmp`, in the directory `out`.
pub fn save_path(text: &str) -> (path: String)
    ensures
        path@ == file_of(text@),
{
    let mut path = String::new();
    path.append("out/");
    path.append(text);
    path.append(".bmp");
    assert(path@ =~= file_of(text@));
    path
}

/// A glyph made ready to be presented.
pub struct Presentation {
    /// The glyph.
    pub glyph: Glyph,
    /// What to print to show it.
    pub shown: String,
    /// Where to write it if the answer to the prompt confirms.
    pub path: String,
}

/// Makes `glyph`, drawn for `text`, ready to be shown and kept.
pub fn save_show_image(text: &str, glyph: Glyph) -> (ready: Presentation)
    ensures
        ready.glyph == glyph,
        ready.shown@ == display(text@, glyph@),
        ready.path@ == file_of(text@),
{
    let shown = show_image(text, &glyph);
    let path = save_path(text);
    Presentation { glyph, shown, path }
}

/// Draws the glyph of `text` and makes it ready to be shown and kept.
pub fn save_make_show_image(text: &str, palette: &Palette) -> (ready: Presentation)
    ensures
        ready.glyph@ == glyph_of(text@, palette@),
        ready.shown@ == display(text@, glyph_of(text@, palette@)),
        ready.path@ == file_of(text@),
{
    save_show_image(text, make_image(text, palette))
}

} // verus!
