use bmp::Pixel;
use colors_transform::{Color, Hsl};
use tadahash::glyph::{make_image, to_mask};
use tadahash::pattern::Palette;
use tadahash::combinations::{Candidates, MAX_LENGTH};
use tadahash::search::{
    cap_length, exceeds_mask, next_length, parse_mask, search, search_length,
};

fn palette() -> Palette {
    let mut colours = Vec::new();
    for hue in 0..360u32 {
        let rgb = Hsl::from(hue as f32, 70.0, 50.0).to_rgb();
        colours.push(Pixel::new(rgb.get_red() as u8, rgb.get_green() as u8, rgb.get_blue() as u8));
    }
    Palette::new(colours).unwrap()
}

fn mask_from(text: &str) -> [bool; 25] {
    let mut mask = [false; 25];
    for (i, c) in text.chars().enumerate() {
        mask[i] = c == '1';
    }
    mask
}

#[test]
fn search_finds_the_empty_text_at_length_zero() {
    let palette = palette();
    let alphabet = vec!['a', 'b'];
    let target = mask_from("1111101110011101000110101");
    let hit = search(&target, &alphabet, &palette, 3).unwrap();
    assert_eq!(hit.text, "");
    assert_eq!(to_mask(&hit.glyph), target);
    let hit = search(&target, &alphabet, &palette, 0).unwrap();
    assert_eq!(hit.text, "");
    let hit = search_length(&target, &alphabet, &palette, 0).unwrap();
    assert_eq!(hit.text, "");
    assert!(search_length(&target, &alphabet, &palette, 1).is_none());
}

#[test]
fn all_white_target_is_not_found_among_short_texts() {
    let palette = palette();
    let alphabet = vec!['a', 'b'];
    assert!(search(&[false; 25], &alphabet, &palette, 3).is_none());
}

#[test]
fn search_finds_a_text_of_two_symbols() {
    let palette = palette();
    let alphabet = vec!['a', 'b'];
    let target = mask_from("0101001110010101010101110");
    let hit = search(&target, &alphabet, &palette, 3).unwrap();
    assert_eq!(hit.text, "ab");
    assert_eq!(to_mask(&hit.glyph), target);
    assert_eq!(hit.glyph.pixel(0, 0), make_image("ab", &palette).pixel(0, 0));
    assert!(search(&target, &alphabet, &palette, 1).is_none());
    assert!(search_length(&target, &alphabet, &palette, 1).is_none());
    assert_eq!(search_length(&target, &alphabet, &palette, 2).unwrap().text, "ab");
}

#[test]
fn search_tries_multisets_only() {
    let palette = palette();
    let alphabet = vec!['a', 'b'];
    let target = to_mask(&make_image("ba", &palette));
    assert_eq!(target, mask_from("0101011111101010000011011"));
    assert!(search(&target, &alphabet, &palette, 4).is_none());
    let reversed = vec!['b', 'a'];
    assert_eq!(search(&target, &reversed, &palette, 4).unwrap().text, "ba");
}

#[test]
fn search_over_three_symbols() {
    let palette = palette();
    let alphabet = vec!['a', 'b', 'c'];
    let target = to_mask(&make_image("bb", &palette));
    assert_eq!(search(&target, &alphabet, &palette, 3).unwrap().text, "bb");
}

#[test]
fn search_with_no_symbols_tries_the_empty_text_only() {
    let palette = palette();
    let alphabet = Vec::new();
    let target = mask_from("1111101110011101000110101");
    assert_eq!(search(&target, &alphabet, &palette, 5).unwrap().text, "");
    assert!(search(&[true; 25], &alphabet, &palette, 5).is_none());
}

#[test]
fn parse_mask_reads_digits() {
    assert_eq!(
        parse_mask("1111101110011101000110101"),
        mask_from("1111101110011101000110101")
    );
    assert_eq!(parse_mask("0000000000000000000000000"), [false; 25]);
}

#[test]
fn parse_mask_skips_spaces() {
    assert_eq!(
        parse_mask("11111 01110 01110 10001 10101"),
        mask_from("1111101110011101000110101")
    );
    assert_eq!(
        parse_mask("  1 1 1 1 1   0 1 1 1 0 0 1 1 1 0 1 0 0 0 1 1 0 1 0 1  "),
        mask_from("1111101110011101000110101")
    );
}

#[test]
fn parse_mask_takes_anything_but_zero_as_on() {
    assert_eq!(parse_mask("x0#09"), mask_from("10101"));
    assert_eq!(parse_mask("é0"), mask_from("10"));
}

#[test]
fn parse_mask_leaves_unreached_cells_off() {
    assert_eq!(parse_mask(""), [false; 25]);
    assert_eq!(parse_mask("   "), [false; 25]);
    assert_eq!(parse_mask("101"), mask_from("101"));
}

#[test]
fn parse_mask_ignores_what_follows_the_25th_cell() {
    assert_eq!(
        parse_mask("00000 00000 00000 00000 00001 11111"),
        mask_from("0000000000000000000000001")
    );
    assert_eq!(parse_mask("1111111111111111111111111111111111"), [true; 25]);
}

#[test]
fn exceeds_mask_counts_visible_characters() {
    assert!(!exceeds_mask(""));
    assert!(!exceeds_mask("11111 01110 01110 10001 10101"));
    assert!(!exceeds_mask("1111101110011101000110101     "));
    assert!(exceeds_mask("11111 01110 01110 10001 10101 0"));
    assert!(exceeds_mask("11111011100111010001101011"));
}

#[test]
fn next_length_goes_on_until_found_or_cut_off() {
    assert_eq!(next_length(false, 0, 3), Some(1));
    assert_eq!(next_length(false, 2, 3), Some(3));
    assert_eq!(next_length(false, 3, 3), None);
    assert_eq!(next_length(true, 0, 3), None);
    assert_eq!(next_length(true, 3, 3), None);
    assert_eq!(next_length(false, 0, 0), None);
    assert_eq!(next_length(false, usize::MAX - 1, usize::MAX), Some(usize::MAX));
    assert_eq!(next_length(false, usize::MAX, usize::MAX), None);
}

#[test]
fn cap_length_keeps_what_can_be_enumerated() {
    assert_eq!(MAX_LENGTH, usize::MAX / 16);
    assert_eq!(cap_length(0), 0);
    assert_eq!(cap_length(70_000), 70_000);
    assert_eq!(cap_length(MAX_LENGTH), MAX_LENGTH);
    assert_eq!(cap_length(MAX_LENGTH + 1), MAX_LENGTH);
    assert_eq!(cap_length(usize::MAX), MAX_LENGTH);
}

#[test]
fn one_symbol_gives_one_long_candidate() {
    let palette = palette();
    let alphabet = vec!['a'];
    let text = "a".repeat(70_000);
    let target = to_mask(&make_image(&text, &palette));
    let hit = search_length(&target, &alphabet, &palette, 70_000).unwrap();
    assert_eq!(hit.text, text);
    let mut other = target;
    other[0] = !other[0];
    assert!(search_length(&other, &alphabet, &palette, 70_000).is_none());
}

#[test]
fn empty_text_is_tried_before_any_symbol() {
    let palette = palette();
    let alphabet = vec!['a', 'b'];
    for text in ["", "a", "b"] {
        let target = to_mask(&make_image(text, &palette));
        assert_eq!(search(&target, &alphabet, &palette, 1).unwrap().text, text);
    }
    let mut all = Candidates::new(&alphabet, 0);
    assert_eq!(all.next(), Some(String::new()));
    assert_eq!(all.next(), None);
}
