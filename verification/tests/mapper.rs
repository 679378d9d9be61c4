use ascii_art::error::AsciiError;
use ascii_art::glyph::{brightness, GlyphMapper};
use ascii_art::rounding::round_ratio;

fn single_precision_index(levels: usize, value: u8) -> usize {
    let scale = (levels - 1) as f32 / 255.0;
    let raw = (value as f32 * scale) as usize;
    raw.min(levels - 1)
}

fn check_against_single_precision(levels: usize) {
    let mapper = GlyphMapper::new(levels).unwrap();
    for value in 0..=255u8 {
        assert_eq!(
            mapper.index(value),
            single_precision_index(levels, value),
            "levels {} brightness {}",
            levels,
            value
        );
    }
}

#[test]
fn brightness_is_the_strongest_channel() {
    assert_eq!(brightness(255, 0, 0), 255);
    assert_eq!(brightness(0, 200, 0), 200);
    assert_eq!(brightness(1, 2, 3), 3);
    assert_eq!(brightness(7, 7, 7), 7);
    assert_eq!(brightness(0, 0, 0), 0);
    assert_eq!(brightness(10, 30, 20), 30);
}

#[test]
fn empty_palette_has_no_mapper() {
    assert!(matches!(GlyphMapper::new(0), Err(AsciiError::EmptyPalette)));
}

#[test]
fn mapper_reports_its_levels() {
    assert_eq!(GlyphMapper::new(1).unwrap().levels(), 1);
    assert_eq!(GlyphMapper::new(70).unwrap().levels(), 70);
}

#[test]
fn two_glyphs_full_red_is_the_second() {
    let mapper = GlyphMapper::new(2).unwrap();
    assert_eq!(mapper.select(255, 0, 0), 1);
    assert_eq!(mapper.index(255), 1);
    assert_eq!(mapper.index(254), 0);
}

#[test]
fn four_glyphs_black_is_the_first() {
    let mapper = GlyphMapper::new(4).unwrap();
    assert_eq!(mapper.select(0, 0, 0), 0);
}

#[test]
fn four_glyphs_bands() {
    let mapper = GlyphMapper::new(4).unwrap();
    assert_eq!(mapper.index(84), 0);
    assert_eq!(mapper.index(85), 1);
    assert_eq!(mapper.index(169), 1);
    assert_eq!(mapper.index(170), 2);
    assert_eq!(mapper.index(254), 2);
    assert_eq!(mapper.index(255), 3);
}

#[test]
fn one_glyph_serves_every_brightness() {
    let mapper = GlyphMapper::new(1).unwrap();
    for value in 0..=255u8 {
        assert_eq!(mapper.index(value), 0);
    }
}

#[test]
fn black_is_first_in_every_palette() {
    for levels in 1..300usize {
        assert_eq!(GlyphMapper::new(levels).unwrap().index(0), 0);
    }
}

#[test]
fn index_stays_inside_the_palette() {
    for levels in 1..400usize {
        let mapper = GlyphMapper::new(levels).unwrap();
        for value in 0..=255u8 {
            assert!(mapper.index(value) < levels);
        }
    }
}

#[test]
fn index_never_falls_as_brightness_rises() {
    for levels in [1usize, 2, 3, 10, 70, 255, 256, 257, 1000, 70000] {
        let mapper = GlyphMapper::new(levels).unwrap();
        let mut last = 0usize;
        for value in 0..=255u8 {
            let index = mapper.index(value);
            assert!(index >= last);
            last = index;
        }
    }
}

#[test]
fn index_is_the_single_precision_product_small_palettes() {
    for levels in 1..=1500usize {
        check_against_single_precision(levels);
    }
}

#[test]
fn index_is_the_single_precision_product_large_palettes() {
    let mut levels: usize = 1501;
    while levels < (1usize << 40) {
        check_against_single_precision(levels);
        check_against_single_precision(levels + 1);
        levels = levels + levels / 7 + 3;
    }
    for shift in 10..63u32 {
        let power = 1usize << shift;
        check_against_single_precision(power - 1);
        check_against_single_precision(power);
        check_against_single_precision(power + 1);
        check_against_single_precision(power + 2);
    }
    check_against_single_precision(16_777_217);
    check_against_single_precision(16_777_218);
    check_against_single_precision(16_777_219);
    check_against_single_precision(usize::MAX);
    check_against_single_precision(usize::MAX - 1);
}

#[test]
fn rounding_shows_where_the_exact_quotient_would_differ() {
    // 221 * 555 / 255 is exactly 481, but the rounded product falls just short of it.
    assert_eq!(221 * 555 / 255, 481);
    assert_eq!(GlyphMapper::new(556).unwrap().index(221), 480);
    assert_eq!(single_precision_index(556, 221), 480);
}

#[test]
fn brightest_pixel_of_a_full_palette() {
    let mapper = GlyphMapper::new(256).unwrap();
    for value in 0..=255u8 {
        assert_eq!(mapper.index(value), value as usize);
    }
}

#[test]
fn round_ratio_keeps_what_fits() {
    assert_eq!(round_ratio(0, 1), 0);
    assert_eq!(round_ratio(1, 1), 1);
    assert_eq!(round_ratio(16_777_215, 1), 16_777_215);
    assert_eq!(round_ratio(16_777_216, 1), 16_777_216);
}

#[test]
fn round_ratio_ties_go_to_even() {
    assert_eq!(round_ratio(16_777_217, 1), 16_777_216);
    assert_eq!(round_ratio(16_777_218, 1), 16_777_218);
    assert_eq!(round_ratio(16_777_219, 1), 16_777_220);
    assert_eq!(round_ratio(1, 2), 0);
    assert_eq!(round_ratio(3, 2), 2);
    assert_eq!(round_ratio(5, 2), 2);
    assert_eq!(round_ratio(7, 2), 4);
}

#[test]
fn round_ratio_goes_to_the_nearest() {
    assert_eq!(round_ratio(7, 3), 2);
    assert_eq!(round_ratio(8, 3), 3);
    assert_eq!(round_ratio(1 << 31, 255), 8_421_505);
    assert_eq!(round_ratio(33_554_433, 1), 33_554_432);
    assert_eq!(round_ratio(33_554_435, 1), 33_554_436);
    assert_eq!(round_ratio(33_554_438, 1), 33_554_440);
}

#[test]
fn round_ratio_agrees_with_single_precision() {
    let mut value: u128 = 1;
    while value < (1u128 << 90) {
        for offset in 0..5u128 {
            let whole = value + offset;
            let expected = (whole as f32) as u128;
            assert_eq!(round_ratio(whole, 1), expected, "value {}", whole);
        }
        value = value * 3 + 1;
    }
}

#[test]
fn round_ratio_at_its_limits() {
    let top: u128 = 1u128 << 126;
    assert_eq!(round_ratio(top, 1), top);
    assert_eq!(round_ratio(top, 1u128 << 64), 1u128 << 62);
    assert_eq!(round_ratio(top - 1, 1), top);
}
