//! Colors: RGBA values written as hex strings, the color scheme with its
//! defaults, and the 256-color terminal palette. Conversions to GPU float
//! colors are the renderer's part.
use vstd::prelude::*;

use crate::text::{char_from_ascii, push_char};
use vstd::string::StringSliceAdditionalSpecFns;

verus! {

/// An RGBA color, one byte per channel.
#[derive(Debug, Clone, Copy, PartialEq, Eq, Structural)]
pub struct HexColor {
    pub r: u8,
    pub g: u8,
    pub b: u8,
    pub a: u8,
}

/// The color whose channels are the bytes of `v`, red the highest.
pub open spec fn spec_from_u32(v: u32) -> HexColor {
    HexColor {
        r: (v / 0x1000000) as u8,
        g: ((v / 0x10000) % 256) as u8,
        b: ((v / 0x100) % 256) as u8,
        a: (v % 256) as u8,
    }
}

/// The value of an ASCII hex digit byte.
pub open spec fn hex_value(b: u8) -> Option<u8> {
    if 0x30 <= b && b <= 0x39 {
        Some((b - 0x30) as u8)
    } else if 0x61 <= b && b <= 0x66 {
        Some((b - 0x61 + 10) as u8)
    } else if 0x41 <= b && b <= 0x46 {
        Some((b - 0x41 + 10) as u8)
    } else {
        None
    }
}

/// The byte that `u8::from_str_radix(_, 16)` reads from the two bytes at
/// `start` (two hex digits, or `+` and one digit), or 0 when there are not
/// two bytes there or they are not a number.
pub open spec fn hex_pair(h: Seq<u8>, start: int) -> u8 {
    if 0 <= start && start + 2 <= h.len() {
        let b0 = h[start];
        let b1 = h[start + 1];
        if hex_value(b0) is Some && hex_value(b1) is Some {
            (hex_value(b0)->0 * 16 + hex_value(b1)->0) as u8
        } else if b0 == 0x2B && hex_value(b1) is Some {
            hex_value(b1)->0
        } else {
            0
        }
    } else {
        0
    }
}

/// The color that the bytes of a hex string name: `RRGGBB` or `RRGGBBAA`,
/// after an optional `#`; alpha is 255 when fewer than 8 bytes follow.
pub open spec fn spec_from_hex_bytes(bytes: Seq<u8>) -> HexColor {
    let h = if bytes.len() > 0 && bytes[0] == 0x23 {
        bytes.skip(1)
    } else {
        bytes
    };
    HexColor {
        r: hex_pair(h, 0),
        g: hex_pair(h, 2),
        b: hex_pair(h, 4),
        a: if h.len() >= 8 {
            hex_pair(h, 6)
        } else {
            255
        },
    }
}

/// An upper-case hex digit.
pub open spec fn hex_digit(n: u8) -> char {
    if n < 10 {
        ((n + 48) as u32) as char
    } else {
        ((n + 55) as u32) as char
    }
}

/// A byte as two upper-case hex digits (`{:02X}`).
pub open spec fn hex_byte(b: u8) -> Seq<char> {
    seq![hex_digit(b / 16), hex_digit(b % 16)]
}

/// `RRGGBBAA` in upper-case hex.
pub open spec fn spec_hex_string(c: HexColor) -> Seq<char> {
    hex_byte(c.r) + hex_byte(c.g) + hex_byte(c.b) + hex_byte(c.a)
}

fn hex_digit_exec(n: u8) -> (r: char)
    requires
        n < 16,
    ensures
        r == hex_digit(n),
{
    if n < 10 {
        char_from_ascii((n + 48) as u32)
    } else {
        char_from_ascii((n + 55) as u32)
    }
}

fn hex_value_exec(b: u8) -> (r: Option<u8>)
    ensures
        r == hex_value(b),
{
    if 0x30 <= b && b <= 0x39 {
        Some(b - 0x30)
    } else if 0x61 <= b && b <= 0x66 {
        Some(b - 0x61 + 10)
    } else if 0x41 <= b && b <= 0x46 {
        Some(b - 0x41 + 10)
    } else {
        None
    }
}

fn hex_pair_exec(h: &[u8], start: usize) -> (r: u8)
    ensures
        r == hex_pair(h@, start as int),
{
    if start <= h.len() && h.len() - start >= 2 {
        let b0 = h[start];
        let b1 = h[start + 1];
        match (hex_value_exec(b0), hex_value_exec(b1)) {
            (Some(v0), Some(v1)) => v0 * 16 + v1,
            (None, Some(v1)) => if b0 == 0x2B {
                v1
            } else {
                0
            },
            _ => 0,
        }
    } else {
        0
    }
}

impl HexColor {
    /// The color whose channels are the bytes of `v`, red the highest (`0xRRGGBBAA`).
    pub fn from_u32(v: u32) -> (r: Self)
        ensures
            r == spec_from_u32(v),
    {
        let r = (v >> 24) as u8;
        let g = (v >> 16) as u8;
        let b = (v >> 8) as u8;
        let a = v as u8;
        assert(r == (v / 0x1000000) as u8) by (bit_vector)
            requires
                r == (v >> 24) as u8,
        ;
        assert(g == ((v / 0x10000) % 256) as u8) by (bit_vector)
            requires
                g == (v >> 16) as u8,
        ;
        assert(b == ((v / 0x100) % 256) as u8) by (bit_vector)
            requires
                b == (v >> 8) as u8,
        ;
        assert(a == (v % 256) as u8) by (bit_vector)
            requires
                a == v as u8,
        ;
        HexColor { r, g, b, a }
    }

    /// Parses a hex color string (`RRGGBB`, `RRGGBBAA`, optionally after `#`);
    /// a channel that is missing or not hex reads as 0.
    pub fn from_hex(hex: &str) -> (r: Self)
        ensures
            r == spec_from_hex_bytes(hex.spec_bytes()),
    {
        let bytes = hex.as_bytes();
        let ghost all = bytes@;
        let h: &[u8] = if bytes.len() > 0 && bytes[0] == 0x23 {
            &bytes[1..bytes.len()]
        } else {
            bytes
        };
        assert(h@ == (if all.len() > 0 && all[0] == 0x23 {
            all.skip(1)
        } else {
            all
        }));
        HexColor {
            r: hex_pair_exec(h, 0),
            g: hex_pair_exec(h, 2),
            b: hex_pair_exec(h, 4),
            a: if h.len() >= 8 {
                hex_pair_exec(h, 6)
            } else {
                255
            },
        }
    }

    /// `RRGGBBAA` in upper-case hex, as the color is written in files.
    pub fn to_hex_string(&self) -> (r: String)
        ensures
            r@ == spec_hex_string(*self),
    {
        let mut s = String::new();
        push_char(&mut s, hex_digit_exec(self.r / 16));
        push_char(&mut s, hex_digit_exec(self.r % 16));
        push_char(&mut s, hex_digit_exec(self.g / 16));
        push_char(&mut s, hex_digit_exec(self.g % 16));
        push_char(&mut s, hex_digit_exec(self.b / 16));
        push_char(&mut s, hex_digit_exec(self.b % 16));
        push_char(&mut s, hex_digit_exec(self.a / 16));
        push_char(&mut s, hex_digit_exec(self.a % 16));
        assert(s@ =~= spec_hex_string(*self));
        s
    }
}

/// The colors of the terminal and of the interface.
#[derive(Debug, Clone, Copy)]
pub struct ColorScheme {
    // Terminal colors
    pub background: HexColor,
    pub chrome: HexColor,
    pub foreground: HexColor,
    pub cursor: HexColor,
    pub black: HexColor,
    pub red: HexColor,
    pub green: HexColor,
    pub yellow: HexColor,
    pub blue: HexColor,
    pub magenta: HexColor,
    pub cyan: HexColor,
    pub white: HexColor,
    pub bright_black: HexColor,
    pub bright_red: HexColor,
    pub bright_green: HexColor,
    pub bright_yellow: HexColor,
    pub bright_blue: HexColor,
    pub bright_magenta: HexColor,
    pub bright_cyan: HexColor,
    pub bright_white: HexColor,

    // Tab bar colors
    pub tab_active_fill: HexColor,
    pub tab_active_stroke: HexColor,
    pub tab_active_text: HexColor,
    pub tab_hover_bg: HexColor,
    pub tab_hover_stroke: HexColor,
    pub tab_separator: HexColor,

    // Selection
    pub selection: HexColor,

    // Panel colors
    pub panel_stroke: HexColor,

    // Dropdown colors
    pub dropdown_bg: HexColor,
    pub dropdown_border: HexColor,
    pub dropdown_shadow: HexColor,
    pub dropdown_item_hover: HexColor,
    pub dropdown_text: HexColor,
    pub dropdown_text_active: HexColor,

    // Dialog/form colors
    pub field_border: HexColor,
    pub field_focused: HexColor,
    pub ok_bg: HexColor,
    pub ok_hover_bg: HexColor,
    pub text_dim: HexColor,
    pub text_placeholder: HexColor,
}

impl Default for ColorScheme {
    fn default() -> (r: Self)
        ensures
            r.background == spec_from_u32(0x1E1F22FF),
            r.chrome == spec_from_u32(0x2B2D30FF),
            r.foreground == spec_from_u32(0xBCBEC4FF),
            r.cursor == spec_from_u32(0xBCBEC4FF),
            r.black == spec_from_u32(0x000000FF),
            r.red == spec_from_u32(0xCD3131FF),
            r.green == spec_from_u32(0x0DBC79FF),
            r.yellow == spec_from_u32(0xE5E510FF),
            r.blue == spec_from_u32(0x2472C8FF),
            r.magenta == spec_from_u32(0xBC3FBCFF),
            r.cyan == spec_from_u32(0x11A8CDFF),
            r.white == spec_from_u32(0xCCCCCCFF),
            r.bright_black == spec_from_u32(0x666666FF),
            r.bright_red == spec_from_u32(0xF14C4CFF),
            r.bright_green == spec_from_u32(0x23D18BFF),
            r.bright_yellow == spec_from_u32(0xF5F543FF),
            r.bright_blue == spec_from_u32(0x3B8EEAFF),
            r.bright_magenta == spec_from_u32(0xD670D6FF),
            r.bright_cyan == spec_from_u32(0x29B8DBFF),
            r.bright_white == spec_from_u32(0xFFFFFFFF),
            r.tab_active_fill == spec_from_u32(0x233558FF),
            r.tab_active_stroke == spec_from_u32(0x2E4D89FF),
            r.tab_active_text == spec_from_u32(0xD1D3D9FF),
            r.tab_hover_bg == spec_from_u32(0x393B40FF),
            r.tab_hover_stroke == spec_from_u32(0x4E5157FF),
            r.tab_separator == spec_from_u32(0x393B40FF),
            r.selection == spec_from_u32(0x264F78FF),
            r.panel_stroke == spec_from_u32(0x3A3A3AFF),
            r.dropdown_bg == spec_from_u32(0x2B2D30FF),
            r.dropdown_border == spec_from_u32(0x43454AFF),
            r.dropdown_shadow == spec_from_u32(0x00000073),
            r.dropdown_item_hover == spec_from_u32(0x2E436EFF),
            r.dropdown_text == spec_from_u32(0xCDD0D6FF),
            r.dropdown_text_active == spec_from_u32(0xFFFFFFFF),
            r.field_border == spec_from_u32(0x5E6066FF),
            r.field_focused == spec_from_u32(0x2F7CF6FF),
            r.ok_bg == spec_from_u32(0x2F7CF6FF),
            r.ok_hover_bg == spec_from_u32(0x3D8BFAFF),
            r.text_dim == spec_from_u32(0x6F737AFF),
            r.text_placeholder == spec_from_u32(0x9A9DA3FF),
    {
        ColorScheme {
            background: HexColor::from_u32(0x1E1F22FF),
            chrome: HexColor::from_u32(0x2B2D30FF),
            foreground: HexColor::from_u32(0xBCBEC4FF),
            cursor: HexColor::from_u32(0xBCBEC4FF),
            black: HexColor::from_u32(0x000000FF),
            red: HexColor::from_u32(0xCD3131FF),
            green: HexColor::from_u32(0x0DBC79FF),
            yellow: HexColor::from_u32(0xE5E510FF),
            blue: HexColor::from_u32(0x2472C8FF),
            magenta: HexColor::from_u32(0xBC3FBCFF),
            cyan: HexColor::from_u32(0x11A8CDFF),
            white: HexColor::from_u32(0xCCCCCCFF),
            bright_black: HexColor::from_u32(0x666666FF),
            bright_red: HexColor::from_u32(0xF14C4CFF),
            bright_green: HexColor::from_u32(0x23D18BFF),
            bright_yellow: HexColor::from_u32(0xF5F543FF),
            bright_blue: HexColor::from_u32(0x3B8EEAFF),
            bright_magenta: HexColor::from_u32(0xD670D6FF),
            bright_cyan: HexColor::from_u32(0x29B8DBFF),
            bright_white: HexColor::from_u32(0xFFFFFFFF),
            tab_active_fill: HexColor::from_u32(0x233558FF),
            tab_active_stroke: HexColor::from_u32(0x2E4D89FF),
            tab_active_text: HexColor::from_u32(0xD1D3D9FF),
            tab_hover_bg: HexColor::from_u32(0x393B40FF),
            tab_hover_stroke: HexColor::from_u32(0x4E5157FF),
            tab_separator: HexColor::from_u32(0x393B40FF),
            selection: HexColor::from_u32(0x264F78FF),
            panel_stroke: HexColor::from_u32(0x3A3A3AFF),
            dropdown_bg: HexColor::from_u32(0x2B2D30FF),
            dropdown_border: HexColor::from_u32(0x43454AFF),
            dropdown_shadow: HexColor::from_u32(0x00000073),
            dropdown_item_hover: HexColor::from_u32(0x2E436EFF),
            dropdown_text: HexColor::from_u32(0xCDD0D6FF),
            dropdown_text_active: HexColor::from_u32(0xFFFFFFFF),
            field_border: HexColor::from_u32(0x5E6066FF),
            field_focused: HexColor::from_u32(0x2F7CF6FF),
            ok_bg: HexColor::from_u32(0x2F7CF6FF),
            ok_hover_bg: HexColor::from_u32(0x3D8BFAFF),
            text_dim: HexColor::from_u32(0x6F737AFF),
            text_placeholder: HexColor::from_u32(0x9A9DA3FF),
        }
    }
}

/// The named colors of the terminal.
#[derive(Debug, Clone, Copy, PartialEq, Eq, Structural)]
pub enum NamedColor {
    Black,
    Red,
    Green,
    Yellow,
    Blue,
    Magenta,
    Cyan,
    White,
    BrightBlack,
    BrightRed,
    BrightGreen,
    BrightYellow,
    BrightBlue,
    BrightMagenta,
    BrightCyan,
    BrightWhite,
    Foreground,
    Background,
    Cursor,
    DimBlack,
    DimRed,
    DimGreen,
    DimYellow,
    DimBlue,
    DimMagenta,
    DimCyan,
    DimWhite,
    BrightForeground,
    DimForeground,
}

/// An RGB color given by the terminal program.
#[derive(Debug, Clone, Copy, PartialEq, Eq, Structural)]
pub struct Rgb {
    pub r: u8,
    pub g: u8,
    pub b: u8,
}

/// A cell color: named, one of the 256 indexed colors, or given as RGB.
#[derive(Debug, Clone, Copy, PartialEq, Eq, Structural)]
pub enum TermColor {
    Named(NamedColor),
    Spec(Rgb),
    Indexed(u8),
}

/// A channel of the 6x6x6 color cube.
pub open spec fn cube_value(v: u8) -> u8 {
    if v == 0 {
        0
    } else {
        (55 + 40 * v) as u8
    }
}

/// The standard 256-color palette.
pub open spec fn spec_ansi_256(idx: u8) -> (u8, u8, u8) {
    if idx == 0 { (0, 0, 0) }
    else if idx == 1 { (205, 49, 49) }
    else if idx == 2 { (13, 188, 121) }
    else if idx == 3 { (229, 229, 16) }
    else if idx == 4 { (36, 114, 200) }
    else if idx == 5 { (188, 63, 188) }
    else if idx == 6 { (17, 168, 205) }
    else if idx == 7 { (204, 204, 204) }
    else if idx == 8 { (102, 102, 102) }
    else if idx == 9 { (241, 76, 76) }
    else if idx == 10 { (35, 209, 139) }
    else if idx == 11 { (245, 245, 67) }
    else if idx == 12 { (59, 142, 234) }
    else if idx == 13 { (214, 112, 214) }
    else if idx == 14 { (41, 184, 219) }
    else if idx == 15 { (255, 255, 255) }
    else if idx <= 231 {
        let i = (idx - 16) as u8;
        (cube_value(i / 36), cube_value((i % 36) / 6), cube_value(i % 6))
    } else {
        let v = (8 + 10 * (idx - 232)) as u8;
        (v, v, v)
    }
}

/// The RGB value of an index of the 256-color palette.
pub fn ansi_256(idx: u8) -> (r: (u8, u8, u8))
    ensures
        r == spec_ansi_256(idx),
{
    match idx {
        0 => (0, 0, 0),
        1 => (205, 49, 49),
        2 => (13, 188, 121),
        3 => (229, 229, 16),
        4 => (36, 114, 200),
        5 => (188, 63, 188),
        6 => (17, 168, 205),
        7 => (204, 204, 204),
        8 => (102, 102, 102),
        9 => (241, 76, 76),
        10 => (35, 209, 139),
        11 => (245, 245, 67),
        12 => (59, 142, 234),
        13 => (214, 112, 214),
        14 => (41, 184, 219),
        15 => (255, 255, 255),
        16..=231 => {
            let i = idx - 16;
            let r = i / 36;
            let g = (i % 36) / 6;
            let b = i % 6;
            (cube_value_exec(r), cube_value_exec(g), cube_value_exec(b))
        },
        232..=255 => {
            let v = 8 + 10 * (idx - 232);
            (v, v, v)
        },
    }
}

fn cube_value_exec(v: u8) -> (r: u8)
    requires
        v < 6,
    ensures
        r == cube_value(v),
{
    if v == 0 {
        0
    } else {
        55 + 40 * v
    }
}

/// The color of the scheme that a named color stands for; background and
/// cursor colors draw as the background, other names as the foreground.
pub open spec fn spec_named_color(s: ColorScheme, c: NamedColor) -> HexColor {
    match c {
        NamedColor::Black => s.black,
        NamedColor::Red => s.red,
        NamedColor::Green => s.green,
        NamedColor::Yellow => s.yellow,
        NamedColor::Blue => s.blue,
        NamedColor::Magenta => s.magenta,
        NamedColor::Cyan => s.cyan,
        NamedColor::White => s.white,
        NamedColor::BrightBlack => s.bright_black,
        NamedColor::BrightRed => s.bright_red,
        NamedColor::BrightGreen => s.bright_green,
        NamedColor::BrightYellow => s.bright_yellow,
        NamedColor::BrightBlue => s.bright_blue,
        NamedColor::BrightMagenta => s.bright_magenta,
        NamedColor::BrightCyan => s.bright_cyan,
        NamedColor::BrightWhite => s.bright_white,
        NamedColor::Foreground => s.foreground,
        NamedColor::Background => s.background,
        NamedColor::Cursor => s.background,
        _ => s.foreground,
    }
}

/// The RGB value of a cell color.
pub open spec fn spec_color_to_rgb(s: ColorScheme, c: TermColor) -> (u8, u8, u8) {
    match c {
        TermColor::Named(n) => {
            let h = spec_named_color(s, n);
            (h.r, h.g, h.b)
        },
        TermColor::Indexed(i) => spec_ansi_256(i),
        TermColor::Spec(rgb) => (rgb.r, rgb.g, rgb.b),
    }
}

impl ColorScheme {
    pub fn named_to_rgb(&self, c: NamedColor) -> (r: (u8, u8, u8))
        ensures
            r == spec_color_to_rgb(*self, TermColor::Named(c)),
    {
        let hc = match c {
            NamedColor::Black => self.black,
            NamedColor::Red => self.red,
            NamedColor::Green => self.green,
            NamedColor::Yellow => self.yellow,
            NamedColor::Blue => self.blue,
            NamedColor::Magenta => self.magenta,
            NamedColor::Cyan => self.cyan,
            NamedColor::White => self.white,
            NamedColor::BrightBlack => self.bright_black,
            NamedColor::BrightRed => self.bright_red,
            NamedColor::BrightGreen => self.bright_green,
            NamedColor::BrightYellow => self.bright_yellow,
            NamedColor::BrightBlue => self.bright_blue,
            NamedColor::BrightMagenta => self.bright_magenta,
            NamedColor::BrightCyan => self.bright_cyan,
            NamedColor::BrightWhite => self.bright_white,
            NamedColor::Foreground => self.foreground,
            NamedColor::Background | NamedColor::Cursor => self.background,
            _ => self.foreground,
        };
        (hc.r, hc.g, hc.b)
    }

    pub fn color_to_rgb(&self, color: TermColor) -> (r: (u8, u8, u8))
        ensures
            r == spec_color_to_rgb(*self, color),
    {
        match color {
            TermColor::Named(n) => self.named_to_rgb(n),
            TermColor::Indexed(idx) => ansi_256(idx),
            TermColor::Spec(rgb) => (rgb.r, rgb.g, rgb.b),
        }
    }

    /// Whether a cell color is the default background (no background quad).
    pub fn is_default_bg(&self, color: TermColor) -> (r: bool)
        ensures
            r == (color == TermColor::Named(NamedColor::Background) || color == TermColor::Named(
                NamedColor::Cursor,
            )),
    {
        match color {
            TermColor::Named(NamedColor::Background) | TermColor::Named(NamedColor::Cursor) => true,
            _ => false,
        }
    }
}

// ---------------------------------------------------------------------------
// Laws
// ---------------------------------------------------------------------------

proof fn lemma_hex_digit_value(n: u8)
    requires
        n < 16,
    ensures
        hex_value(hex_digit(n) as u8) == Some(n),
        (hex_digit(n) as u32) < 128,
{
}

/// A color written with `to_hex_string` reads back as the same color with
/// `from_hex`, with or without a leading `#`.
pub proof fn law_hex_round_trip(c: HexColor)
    ensures
        spec_from_hex_bytes(vstd::utf8::encode_utf8(spec_hex_string(c))) == c,
        spec_from_hex_bytes(vstd::utf8::encode_utf8(seq!['#'] + spec_hex_string(c))) == c,
{
    let s = spec_hex_string(c);
    lemma_hex_digit_value(c.r / 16);
    lemma_hex_digit_value(c.r % 16);
    lemma_hex_digit_value(c.g / 16);
    lemma_hex_digit_value(c.g % 16);
    lemma_hex_digit_value(c.b / 16);
    lemma_hex_digit_value(c.b % 16);
    lemma_hex_digit_value(c.a / 16);
    lemma_hex_digit_value(c.a % 16);
    assert(vstd::utf8::is_ascii_chars(s));
    vstd::utf8::is_ascii_chars_encode_utf8(s);
    let e = vstd::utf8::encode_utf8(s);
    assert(e[0] == s[0] as u8);
    assert(e[0] != 0x23);
    assert(hex_pair(e, 0) == c.r);
    assert(hex_pair(e, 2) == c.g);
    assert(hex_pair(e, 4) == c.b);
    assert(hex_pair(e, 6) == c.a);
    let s2 = seq!['#'] + s;
    assert(vstd::utf8::is_ascii_chars(s2));
    vstd::utf8::is_ascii_chars_encode_utf8(s2);
    let e2 = vstd::utf8::encode_utf8(s2);
    assert(e2[0] == 0x23);
    assert(e2.skip(1) =~= e);
}


/// Each of the sixteen ANSI colors is painted with the scheme's color of the
/// same name (blue text in the scheme's blue, bright cyan in its bright
/// cyan), the default foreground in its foreground and the default
/// background in its background, whatever the scheme.
pub proof fn law_named_colors_use_their_field(s: ColorScheme)
    ensures
        spec_color_to_rgb(s, TermColor::Named(NamedColor::Black)) == (s.black.r, s.black.g, s.black.b),
        spec_color_to_rgb(s, TermColor::Named(NamedColor::Red)) == (s.red.r, s.red.g, s.red.b),
        spec_color_to_rgb(s, TermColor::Named(NamedColor::Green)) == (s.green.r, s.green.g, s.green.b),
        spec_color_to_rgb(s, TermColor::Named(NamedColor::Yellow)) == (s.yellow.r, s.yellow.g, s.yellow.b),
        spec_color_to_rgb(s, TermColor::Named(NamedColor::Blue)) == (s.blue.r, s.blue.g, s.blue.b),
        spec_color_to_rgb(s, TermColor::Named(NamedColor::Magenta)) == (s.magenta.r, s.magenta.g, s.magenta.b),
        spec_color_to_rgb(s, TermColor::Named(NamedColor::Cyan)) == (s.cyan.r, s.cyan.g, s.cyan.b),
        spec_color_to_rgb(s, TermColor::Named(NamedColor::White)) == (s.white.r, s.white.g, s.white.b),
        spec_color_to_rgb(s, TermColor::Named(NamedColor::BrightBlack)) == (s.bright_black.r, s.bright_black.g, s.bright_black.b),
        spec_color_to_rgb(s, TermColor::Named(NamedColor::BrightRed)) == (s.bright_red.r, s.bright_red.g, s.bright_red.b),
        spec_color_to_rgb(s, TermColor::Named(NamedColor::BrightGreen)) == (s.bright_green.r, s.bright_green.g, s.bright_green.b),
        spec_color_to_rgb(s, TermColor::Named(NamedColor::BrightYellow)) == (s.bright_yellow.r, s.bright_yellow.g, s.bright_yellow.b),
        spec_color_to_rgb(s, TermColor::Named(NamedColor::BrightBlue)) == (s.bright_blue.r, s.bright_blue.g, s.bright_blue.b),
        spec_color_to_rgb(s, TermColor::Named(NamedColor::BrightMagenta)) == (s.bright_magenta.r, s.bright_magenta.g, s.bright_magenta.b),
        spec_color_to_rgb(s, TermColor::Named(NamedColor::BrightCyan)) == (s.bright_cyan.r, s.bright_cyan.g, s.bright_cyan.b),
        spec_color_to_rgb(s, TermColor::Named(NamedColor::BrightWhite)) == (s.bright_white.r, s.bright_white.g, s.bright_white.b),
        spec_color_to_rgb(s, TermColor::Named(NamedColor::Foreground)) == (s.foreground.r, s.foreground.g, s.foreground.b),
        spec_color_to_rgb(s, TermColor::Named(NamedColor::Background)) == (s.background.r, s.background.g, s.background.b),
{
}


/// The six levels of each channel of the color cube.
pub open spec fn cube_levels() -> Seq<u8> {
    seq![0u8, 95u8, 135u8, 175u8, 215u8, 255u8]
}

/// The 256-color palette: indices 16 to 231 are the 6x6x6 cube, index
/// 16 + 36r + 6g + b having the levels 0, 95, 135, 175, 215, 255 of r, g and
/// b; indices 232 to 255 are 24 grays from 8 up in steps of 10. Among the
/// first sixteen, index 0 is black, index 15 white, and each bright color
/// (8 to 15) is at least as light in every channel as its normal one (0 to 7).
pub proof fn law_palette_layout(r: u8, g: u8, b: u8, k: u8, i: u8)
    ensures
        r < 6 && g < 6 && b < 6 ==> spec_ansi_256((16 + 36 * r + 6 * g + b) as u8) == (
            cube_levels()[r as int],
            cube_levels()[g as int],
            cube_levels()[b as int],
        ),
        k < 24 ==> spec_ansi_256((232 + k) as u8) == ((8 + 10 * k) as u8, (8 + 10 * k) as u8, (8
            + 10 * k) as u8),
        spec_ansi_256(0) == (0u8, 0u8, 0u8),
        spec_ansi_256(15) == (255u8, 255u8, 255u8),
        i < 8 ==> ({
            let n = spec_ansi_256(i);
            let l = spec_ansi_256((i + 8) as u8);
            n.0 <= l.0 && n.1 <= l.1 && n.2 <= l.2
        }),
{
    if r < 6 && g < 6 && b < 6 {
        let idx = (16 + 36 * r + 6 * g + b) as u8;
        let j = (idx - 16) as u8;
        assert(j == 36 * r + 6 * g + b);
        assert(j / 36 == r && (j % 36) / 6 == g && j % 6 == b) by (nonlinear_arith)
            requires
                j == 36 * r + 6 * g + b,
                r < 6,
                g < 6,
                b < 6,
        ;
    }
}

} // verus!
