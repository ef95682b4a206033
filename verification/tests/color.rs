use row666_metroidbrainia::gfx::pass::lighting_pass::Color;
use row666_metroidbrainia::ratio::Ratio;

fn channels(color: Color) -> (u8, u8, u8) {
    (color.r(), color.g(), color.b())
}

fn as_float(share: Ratio) -> f32 {
    share.num as f32 / share.den as f32
}

#[test]
fn orange_from_hex() {
    let color = Color::from_hex("#FF8000").unwrap();
    assert_eq!(channels(color), (255, 128, 0));
}

#[test]
fn orange_as_floats() {
    let color = Color::from_hex("#FF8000").unwrap();
    let shares = color.normalized();
    assert_eq!(shares.0, Ratio { num: 255, den: 255 });
    assert_eq!(shares.1, Ratio { num: 128, den: 255 });
    assert_eq!(shares.2, Ratio { num: 0, den: 255 });
    assert_eq!(as_float(shares.0), 1.0);
    assert!((as_float(shares.1) - 0.502).abs() < 0.001);
    assert_eq!(as_float(shares.2), 0.0);
}

#[test]
fn from_rgb_keeps_the_channels() {
    assert_eq!(channels(Color::from_rgb(20, 50, 130)), (20, 50, 130));
    assert_eq!(channels(Color::from_rgb(0, 0, 0)), (0, 0, 0));
    assert_eq!(channels(Color::from_rgb(255, 255, 255)), (255, 255, 255));
}

#[test]
fn hex_without_hash() {
    assert_eq!(channels(Color::from_hex("102030").unwrap()), (16, 32, 48));
}

#[test]
fn hex_in_lower_and_mixed_case() {
    assert_eq!(channels(Color::from_hex("#ff8000").unwrap()), (255, 128, 0));
    assert_eq!(channels(Color::from_hex("#aBcDeF").unwrap()), (0xab, 0xcd, 0xef));
}

#[test]
fn hex_extremes() {
    assert_eq!(channels(Color::from_hex("#000000").unwrap()), (0, 0, 0));
    assert_eq!(channels(Color::from_hex("#FFFFFF").unwrap()), (255, 255, 255));
    assert_eq!(channels(Color::from_hex("#0a0B90").unwrap()), (10, 11, 144));
}

#[test]
fn hex_channel_with_a_plus_sign() {
    assert_eq!(channels(Color::from_hex("#+F+0+a").unwrap()), (15, 0, 10));
    assert!(Color::from_hex("#F+0000").is_none());
}

#[test]
fn hex_of_the_wrong_length() {
    assert!(Color::from_hex("").is_none());
    assert!(Color::from_hex("#").is_none());
    assert!(Color::from_hex("#FF800").is_none());
    assert!(Color::from_hex("#FF80000").is_none());
    assert!(Color::from_hex("FF80000").is_none());
    assert!(Color::from_hex("##FF8000").is_none());
    assert!(Color::from_hex("#FF8000#").is_none());
}

#[test]
fn hex_with_a_wrong_digit() {
    assert!(Color::from_hex("#GG8000").is_none());
    assert!(Color::from_hex("#FF80 0").is_none());
    assert!(Color::from_hex("#-18000").is_none());
    assert!(Color::from_hex("#FF800g").is_none());
    assert!(Color::from_hex("#++8000").is_none());
}

#[test]
fn hex_that_is_not_ascii() {
    assert!(Color::from_hex("#\u{e9}\u{e9}12").is_none());
    assert!(Color::from_hex("a\u{e9}123").is_none());
    assert!(Color::from_hex("\u{20ac}\u{20ac}").is_none());
}

#[test]
fn equal_colours_are_equal() {
    assert_eq!(Color::from_hex("#FF8000"), Some(Color::from_rgb(255, 128, 0)));
    assert_ne!(Color::from_rgb(1, 2, 3), Color::from_rgb(3, 2, 1));
}

#[test]
fn every_colour_is_read_back_from_its_code() {
    for value in 0..=255u8 {
        let other = value.wrapping_mul(7).wrapping_add(3);
        let code: &'static str =
            Box::leak(format!("#{:02X}{:02X}{:02X}", value, other, 255 - value).into_boxed_str());
        assert_eq!(Color::from_hex(code), Some(Color::from_rgb(value, other, 255 - value)));
        let lower: &'static str =
            Box::leak(format!("{:02x}{:02x}{:02x}", value, value, other).into_boxed_str());
        assert_eq!(Color::from_hex(lower), Some(Color::from_rgb(value, value, other)));
    }
}
