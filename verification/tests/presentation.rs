use bmp::Pixel;
use colors_transform::{Color, Hsl};
use tadahash::glyph::{draw, make_image};
use tadahash::pattern::Palette;
use tadahash::present::{confirms, save_make_show_image, save_path, save_show_image, show_image};

fn palette() -> Palette {
    let mut colours = Vec::new();
    for hue in 0..360u32 {
        let rgb = Hsl::from(hue as f32, 70.0, 50.0).to_rgb();
        colours.push(Pixel::new(rgb.get_red() as u8, rgb.get_green() as u8, rgb.get_blue() as u8));
    }
    Palette::new(colours).unwrap()
}

fn expected_for_a() -> String {
    let rows = [
        "Displaying: a\n",
        "\x1B[107m\x1B[38;2;216;59;38m██\x1B[0m\x1B[107m\x1B[38;2;216;59;38m██\x1B[0m\x1B[107m\x1B[38;2;216;59;38m██\x1B[0m\x1B[107m\x1B[38;2;216;59;38m██\x1B[0m\x1B[107m\x1B[38;2;216;59;38m██\x1B[0m\x1B[0m\n",
        "\x1B[107m\x1B[38;2;216;59;38m██\x1B[0m\x1B[107m\x1B[38;2;216;59;38m██\x1B[0m\x1B[107m  \x1B[107m\x1B[38;2;216;59;38m██\x1B[0m\x1B[107m\x1B[38;2;216;59;38m██\x1B[0m\x1B[0m\n",
        "\x1B[107m  \x1B[107m\x1B[38;2;216;59;38m██\x1B[0m\x1B[107m  \x1B[107m\x1B[38;2;216;59;38m██\x1B[0m\x1B[107m  \x1B[0m\n",
        "\x1B[107m\x1B[38;2;216;59;38m██\x1B[0m\x1B[107m  \x1B[107m  \x1B[107m  \x1B[107m\x1B[38;2;216;59;38m██\x1B[0m\x1B[0m\n",
        "\x1B[107m  \x1B[107m\x1B[38;2;216;59;38m██\x1B[0m\x1B[107m  \x1B[107m\x1B[38;2;216;59;38m██\x1B[0m\x1B[107m  \x1B[0m\n",
        "press enter to continue, save with `s`\n",
    ];
    rows.concat()
}

#[test]
fn show_image_of_a() {
    let palette = palette();
    let glyph = make_image("a", &palette);
    assert_eq!(show_image("a", &glyph), expected_for_a());
}

#[test]
fn show_image_writes_each_channel_in_decimal() {
    let mut pattern = [true; 15];
    pattern[0] = false;
    let glyph = draw(Pixel::new(0, 7, 255), &pattern);
    let shown = show_image("t", &glyph);
    let blank = "\x1B[107m  ";
    let cell = "\x1B[107m\x1B[38;2;0;7;255m██\x1B[0m";
    let first = format!("{blank}{blank}{cell}{blank}{blank}\x1B[0m\n");
    let other = format!("{blank}{blank}{blank}{blank}{blank}\x1B[0m\n");
    let expected = format!(
        "Displaying: t\n{first}{other}{other}{other}{other}press enter to continue, save with `s`\n"
    );
    assert_eq!(shown, expected);
    let glyph = draw(Pixel::new(10, 99, 100), &[false; 15]);
    assert!(show_image("", &glyph).contains("\x1B[38;2;10;99;100m"));
}

#[test]
fn confirms_on_y_only() {
    assert!(confirms(b'y'));
    assert!(!confirms(b's'));
    assert!(!confirms(b'Y'));
    assert!(!confirms(b'\n'));
    assert!(!confirms(0));
}

#[test]
fn save_path_is_in_out() {
    assert_eq!(save_path("a"), "out/a.bmp");
    assert_eq!(save_path(""), "out/.bmp");
    assert_eq!(save_path("hé llo"), "out/hé llo.bmp");
}

#[test]
fn save_show_image_keeps_the_glyph() {
    let glyph = draw(Pixel::new(1, 2, 3), &[false; 15]);
    let ready = save_show_image("name", glyph);
    assert_eq!(ready.path, "out/name.bmp");
    assert_eq!(ready.glyph.pixel(4, 4), Pixel::new(1, 2, 3));
    assert_eq!(ready.shown, show_image("name", &ready.glyph));
}

#[test]
fn save_make_show_image_of_a() {
    let palette = palette();
    let ready = save_make_show_image("a", &palette);
    assert_eq!(ready.shown, expected_for_a());
    assert_eq!(ready.path, "out/a.bmp");
    assert_eq!(ready.glyph.pixel(0, 0), Pixel::new(216, 59, 38));
    assert_eq!(ready.glyph.pixel(2, 1), Pixel::new(255, 255, 255));
}
