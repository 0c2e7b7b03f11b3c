use skybox::color::{Rgb16, Rgb8};

#[test]
fn from_str_reads_lower_and_upper_case() {
    assert_eq!(Rgb8::from_str("87ceeb"), Some(Rgb8 { r: 135, g: 206, b: 235 }));
    assert_eq!(Rgb8::from_str("87CEEB"), Some(Rgb8 { r: 135, g: 206, b: 235 }));
    assert_eq!(Rgb8::from_str("000000"), Some(Rgb8 { r: 0, g: 0, b: 0 }));
    assert_eq!(Rgb8::from_str("ffffff"), Some(Rgb8 { r: 255, g: 255, b: 255 }));
    assert_eq!(Rgb8::from_str("0a1B2c"), Some(Rgb8 { r: 10, g: 27, b: 44 }));
}

#[test]
fn from_str_takes_a_plus_sign_for_the_first_digit() {
    assert_eq!(Rgb8::from_str("+f+0+9"), Some(Rgb8 { r: 15, g: 0, b: 9 }));
    assert_eq!(Rgb8::from_str("++0000"), None);
    assert_eq!(Rgb8::from_str("0+0000"), None);
    assert_eq!(Rgb8::from_str("-10000"), None);
}

#[test]
fn from_str_rejects_wrong_lengths() {
    assert_eq!(Rgb8::from_str(""), None);
    assert_eq!(Rgb8::from_str("fffff"), None);
    assert_eq!(Rgb8::from_str("fffffff"), None);
    assert_eq!(Rgb8::from_str("#ffffff"), None);
}

#[test]
fn from_str_rejects_other_characters() {
    assert_eq!(Rgb8::from_str("gg0000"), None);
    assert_eq!(Rgb8::from_str("00 000"), None);
    assert_eq!(Rgb8::from_str("0000/0"), None);
    assert_eq!(Rgb8::from_str("0000:0"), None);
    assert_eq!(Rgb8::from_str("0000@0"), None);
    assert_eq!(Rgb8::from_str("0000G0"), None);
    assert_eq!(Rgb8::from_str("0000`0"), None);
    // Six bytes, but not six characters.
    assert_eq!(Rgb8::from_str("\u{e9}0000"), None);
    assert_eq!(Rgb8::from_str("\u{20ac}000"), None);
}

#[test]
fn from_bytes_agrees_with_from_str() {
    assert_eq!(Rgb8::from_bytes(b"102030"), Some(Rgb8 { r: 16, g: 32, b: 48 }));
    assert_eq!(Rgb8::from_bytes(b"10203"), None);
    assert_eq!(Rgb8::from_bytes(&[0xff, 0x30, 0x30, 0x30, 0x30, 0x30]), None);
}

#[test]
fn channels_parse_as_radix_sixteen_bytes() {
    // Every pair of ASCII characters, against the standard library's parser.
    for first in 0u8..128 {
        for second in 0u8..128 {
            let pair = String::from_utf8(vec![first, second]).unwrap();
            let expected = u8::from_str_radix(&pair, 16).ok();
            let red = Rgb8::from_str(&format!("{pair}0000")).map(|c| c.r);
            let green = Rgb8::from_str(&format!("00{pair}00")).map(|c| c.g);
            let blue = Rgb8::from_str(&format!("0000{pair}")).map(|c| c.b);
            assert_eq!(red, expected);
            assert_eq!(green, expected);
            assert_eq!(blue, expected);
        }
    }
}

#[test]
fn to_48_u8_puts_high_bytes_first() {
    let c = Rgb16 { r: 0x1234, g: 0xabcd, b: 0x00ff };
    assert_eq!(c.to_48_u8(), [0x12, 0x34, 0xab, 0xcd, 0x00, 0xff]);
    assert_eq!(Rgb16 { r: 0, g: 0, b: 0 }.to_48_u8(), [0; 6]);
    assert_eq!(Rgb16 { r: 65535, g: 65535, b: 65535 }.to_48_u8(), [255; 6]);
    assert_eq!(Rgb16 { r: 256, g: 255, b: 1 }.to_48_u8(), [1, 0, 0, 255, 0, 1]);
}

#[test]
fn to_48_u8_reads_back_every_channel_value() {
    for v in 0..=u16::MAX {
        let bytes = Rgb16 { r: v, g: !v, b: v.rotate_left(3) }.to_48_u8();
        assert_eq!(u16::from_be_bytes([bytes[0], bytes[1]]), v);
        assert_eq!(u16::from_be_bytes([bytes[2], bytes[3]]), !v);
        assert_eq!(u16::from_be_bytes([bytes[4], bytes[5]]), v.rotate_left(3));
    }
}

#[test]
fn stored_linear_colour_comes_back_within_half_a_step() {
    // A linear channel in [0, 1] is stored as round(c * 65535).
    for i in 0..=1000 {
        let c = i as f64 / 1000.0;
        let v = (c.clamp(0.0, 1.0) * 65535.0).round() as u16;
        let bytes = Rgb16 { r: v, g: v, b: v }.to_48_u8();
        let back = u16::from_be_bytes([bytes[4], bytes[5]]) as f64 / 65535.0;
        assert!((back - c).abs() <= 0.5 / 65535.0 + 1e-12);
    }
}
