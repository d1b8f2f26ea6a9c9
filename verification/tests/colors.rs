use pfauterminal::colors::{ansi_256, ColorScheme, HexColor, NamedColor, Rgb, TermColor};

#[test]
fn hex_color_from_u32_splits_bytes() {
    let c = HexColor::from_u32(0x1E1F22FF);
    assert_eq!((c.r, c.g, c.b, c.a), (0x1E, 0x1F, 0x22, 0xFF));
}

#[test]
fn hex_color_from_hex_with_and_without_hash() {
    let c = HexColor::from_hex("#FF0000");
    assert_eq!((c.r, c.g, c.b, c.a), (255, 0, 0, 255));
    let d = HexColor::from_hex("11223344");
    assert_eq!((d.r, d.g, d.b, d.a), (0x11, 0x22, 0x33, 0x44));
    let e = HexColor::from_hex("#abcdef");
    assert_eq!((e.r, e.g, e.b, e.a), (0xAB, 0xCD, 0xEF, 255));
}

#[test]
fn hex_color_from_hex_bad_channels_read_as_zero() {
    let c = HexColor::from_hex("zz00");
    assert_eq!((c.r, c.g, c.b, c.a), (0, 0, 0, 255));
    // `u8::from_str_radix` accepts a leading '+'
    let p = HexColor::from_hex("+F0000");
    assert_eq!(p.r, 15);
    let empty = HexColor::from_hex("");
    assert_eq!((empty.r, empty.g, empty.b, empty.a), (0, 0, 0, 255));
}

#[test]
fn hex_color_string_round_trip() {
    let c = HexColor { r: 0x12, g: 0xAB, b: 0x00, a: 0xFF };
    let s = c.to_hex_string();
    assert_eq!(s, "12AB00FF");
    assert_eq!(HexColor::from_hex(&s), c);
    let with_hash = format!("#{}", s);
    assert_eq!(HexColor::from_hex(&with_hash), c);
}

#[test]
fn color_scheme_defaults() {
    let s = ColorScheme::default();
    assert_eq!(s.background, HexColor::from_u32(0x1E1F22FF));
    assert_eq!(s.foreground, HexColor::from_u32(0xBCBEC4FF));
    assert_eq!(s.chrome, HexColor::from_u32(0x2B2D30FF));
}

#[test]
fn ansi_palette_values() {
    assert_eq!(ansi_256(0), (0, 0, 0));
    assert_eq!(ansi_256(1), (205, 49, 49));
    assert_eq!(ansi_256(15), (255, 255, 255));
    assert_eq!(ansi_256(16), (0, 0, 0));
    assert_eq!(ansi_256(21), (0, 0, 255));
    assert_eq!(ansi_256(196), (255, 0, 0));
    assert_eq!(ansi_256(231), (255, 255, 255));
    assert_eq!(ansi_256(232), (8, 8, 8));
    assert_eq!(ansi_256(255), (238, 238, 238));
}

#[test]
fn color_to_rgb_by_kind() {
    let s = ColorScheme::default();
    let bg = s.background;
    assert_eq!(s.color_to_rgb(TermColor::Named(NamedColor::Background)), (bg.r, bg.g, bg.b));
    assert_eq!(s.color_to_rgb(TermColor::Named(NamedColor::Cursor)), (bg.r, bg.g, bg.b));
    let fg = s.foreground;
    assert_eq!(s.named_to_rgb(NamedColor::DimRed), (fg.r, fg.g, fg.b));
    let red = s.red;
    assert_eq!(s.named_to_rgb(NamedColor::Red), (red.r, red.g, red.b));
    assert_eq!(s.color_to_rgb(TermColor::Indexed(21)), (0, 0, 255));
    assert_eq!(s.color_to_rgb(TermColor::Spec(Rgb { r: 1, g: 2, b: 3 })), (1, 2, 3));
}

#[test]
fn default_background_detection() {
    let s = ColorScheme::default();
    assert!(s.is_default_bg(TermColor::Named(NamedColor::Background)));
    assert!(s.is_default_bg(TermColor::Named(NamedColor::Cursor)));
    assert!(!s.is_default_bg(TermColor::Named(NamedColor::Black)));
    assert!(!s.is_default_bg(TermColor::Indexed(0)));
}
