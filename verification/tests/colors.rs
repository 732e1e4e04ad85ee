use work_time_visualizer::native_interop::{effective_dpi, restyle, wide_str, Color};

#[test]
fn from_hex_reads_the_default_palette() {
    assert_eq!(Color::from_hex("#4CAF50"), Color::new(0x4C, 0xAF, 0x50));
    assert_eq!(Color::from_hex("#2196F3"), Color::new(0x21, 0x96, 0xF3));
    assert_eq!(Color::from_hex("#9C27B0"), Color::new(0x9C, 0x27, 0xB0));
}

#[test]
fn from_hex_hash_is_optional() {
    assert_eq!(Color::from_hex("1a2b3c"), Color::new(0x1A, 0x2B, 0x3C));
    assert_eq!(Color::from_hex("##1a2b3c"), Color::new(0x1A, 0x2B, 0x3C));
}

#[test]
fn from_hex_short_string_is_black() {
    assert_eq!(Color::from_hex("#12345"), Color::default());
    assert_eq!(Color::from_hex(""), Color::new(0, 0, 0));
}

#[test]
fn from_hex_bad_pairs_read_as_zero() {
    assert_eq!(Color::from_hex("#zz10ff"), Color::new(0, 0x10, 0xFF));
    assert_eq!(Color::from_hex("#+f-101"), Color::new(0x0F, 0, 0x01));
}

#[test]
fn from_hex_ignores_trailing_bytes() {
    assert_eq!(Color::from_hex("#ABCDEF99"), Color::new(0xAB, 0xCD, 0xEF));
}

#[test]
fn from_hex_multibyte_pair_reads_as_zero() {
    assert_eq!(Color::from_hex("é0102"), Color::new(0, 0x01, 0x02));
}

#[test]
fn colorref_is_bbggrr() {
    assert_eq!(Color::new(0x11, 0x22, 0x33).to_colorref(), 0x0033_2211);
    assert_eq!(Color::new(255, 255, 255).to_colorref(), 0x00FF_FFFF);
}

#[test]
fn bgra_pixel_is_ffrrggbb() {
    assert_eq!(Color::new(0x11, 0x22, 0x33).to_bgra_pixel(), 0xFF11_2233);
    assert_eq!(Color::default().to_bgra_pixel(), 0xFF00_0000);
}

#[test]
fn wide_str_ascii() {
    assert_eq!(wide_str("Exit"), vec![0x45, 0x78, 0x69, 0x74, 0]);
    assert_eq!(wide_str(""), vec![0]);
}

#[test]
fn wide_str_matches_std_encoding() {
    let s = "Wk é 😀 end";
    let mut expected: Vec<u16> = s.encode_utf16().collect();
    expected.push(0);
    assert_eq!(wide_str(s), expected);
    assert_eq!(wide_str("😀"), vec![0xD83D, 0xDE00, 0]);
}

#[test]
fn dpi_falls_back_to_96() {
    assert_eq!(effective_dpi(0), 96);
    assert_eq!(effective_dpi(144), 144);
}

#[test]
fn restyle_swaps_popup_for_child() {
    let popup = 0x8000_0000u32;
    let child_clip = 0x4000_0000u32 | 0x0400_0000u32;
    let style = popup | 0x1000_0000;
    assert_eq!(restyle(style, popup, child_clip), 0x1000_0000 | child_clip);
    assert_eq!(restyle(0x80, 0, 0x0800_0000), 0x0800_0080);
}

#[test]
fn from_hex_round_trips_both_cases_with_and_without_hash() {
    for (r, g, b) in [(0u8, 0u8, 0u8), (0x4C, 0xAF, 0x50), (0xFF, 0x0A, 0xB7), (255, 255, 255)] {
        let c = Color::new(r, g, b);
        assert_eq!(Color::from_hex(&format!("#{:02X}{:02X}{:02X}", r, g, b)), c);
        assert_eq!(Color::from_hex(&format!("#{:02x}{:02x}{:02x}", r, g, b)), c);
        assert_eq!(Color::from_hex(&format!("{:02x}{:02x}{:02x}", r, g, b)), c);
        assert_eq!(Color::from_hex(&format!("{:02X}{:02X}{:02X}", r, g, b)), c);
    }
}
