use pixel_pipeline::pixel::{
    big_endian, color_channels, combine_bytes, rgb565_to_rgb888, Rgb888,
};

#[test]
fn converts_pure_red() {
    assert_eq!(rgb565_to_rgb888(0xF800), Rgb888 { red: 248, green: 0, blue: 0 });
}

#[test]
fn converts_pure_green() {
    assert_eq!(rgb565_to_rgb888(0x07E0), Rgb888 { red: 0, green: 252, blue: 0 });
}

#[test]
fn converts_pure_blue() {
    assert_eq!(rgb565_to_rgb888(0x001F), Rgb888 { red: 0, green: 0, blue: 248 });
}

#[test]
fn converts_black_and_white() {
    assert_eq!(rgb565_to_rgb888(0x0000), Rgb888 { red: 0, green: 0, blue: 0 });
    assert_eq!(rgb565_to_rgb888(0xFFFF), Rgb888 { red: 248, green: 252, blue: 248 });
}

#[test]
fn converts_mixed_code() {
    // 0x1234 = 00010 010001 10100
    assert_eq!(rgb565_to_rgb888(0x1234), Rgb888 { red: 16, green: 68, blue: 160 });
}

#[test]
fn conversion_matches_shift_formula_for_every_code() {
    for pixel in 0..=u16::MAX {
        let rgb = rgb565_to_rgb888(pixel);
        assert_eq!(rgb.red as u16, ((pixel >> 11) & 0x1F) << 3);
        assert_eq!(rgb.green as u16, ((pixel >> 5) & 0x3F) << 2);
        assert_eq!(rgb.blue as u16, (pixel & 0x1F) << 3);
    }
}

#[test]
fn conversion_zero_fills_low_bits_and_loses_nothing() {
    for pixel in 0..=u16::MAX {
        let rgb = rgb565_to_rgb888(pixel);
        assert_eq!(rgb.red & 0x07, 0);
        assert_eq!(rgb.green & 0x03, 0);
        assert_eq!(rgb.blue & 0x07, 0);
        let back = ((rgb.red as u16 >> 3) << 11) | ((rgb.green as u16 >> 2) << 5)
            | (rgb.blue as u16 >> 3);
        assert_eq!(back, pixel);
    }
}

#[test]
fn splits_colour_into_channels() {
    assert_eq!(color_channels(0xFFFFFF), Rgb888 { red: 255, green: 255, blue: 255 });
    assert_eq!(color_channels(0x123456), Rgb888 { red: 0x12, green: 0x34, blue: 0x56 });
    assert_eq!(color_channels(0xAB123456), Rgb888 { red: 0x12, green: 0x34, blue: 0x56 });
    assert_eq!(color_channels(0), Rgb888 { red: 0, green: 0, blue: 0 });
}

#[test]
fn combines_bytes_most_significant_first() {
    assert_eq!(combine_bytes(0xF8, 0x00), 0xF800);
    assert_eq!(combine_bytes(0x07, 0xE0), 0x07E0);
    assert_eq!(combine_bytes(0x12, 0x34), 0x1234);
    assert_eq!(combine_bytes(0xFF, 0xFF), 0xFFFF);
}

#[test]
fn splits_value_most_significant_first() {
    assert_eq!(big_endian(0x007F), (0x00, 0x7F));
    assert_eq!(big_endian(0x1234), (0x12, 0x34));
    assert_eq!(big_endian(0xFFFF), (0xFF, 0xFF));
}

#[test]
fn split_and_combine_are_inverse() {
    for value in 0..=u16::MAX {
        let (high, low) = big_endian(value);
        assert_eq!(combine_bytes(high, low), value);
    }
}
