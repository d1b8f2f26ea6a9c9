//! How a cell of the terminal grid is painted: its background, the color
//! and style of its character, block-drawing characters drawn as shapes in
//! eighths of the cell, and the cache that gives each styled character its
//! text buffer. Placing the shapes in pixels and shaping the text is the
//! renderer's part.
use vstd::prelude::*;

use crate::colors::{spec_color_to_rgb, ColorScheme, TermColor};

verus! {

/// The attributes of a cell that painting reads.
#[derive(Debug, Clone, Copy, PartialEq, Eq, Structural)]
pub struct CellStyle {
    pub inverse: bool,
    pub hidden: bool,
    /// The cell after a wide character, which the wide character covers.
    pub wide_char_spacer: bool,
    /// The cell at the end of a line that a wide character wrapped past.
    pub leading_wide_char_spacer: bool,
    pub dim: bool,
    pub bold: bool,
    pub italic: bool,
}

/// A cell of the grid: its character, colors and attributes.
#[derive(Debug, Clone, Copy, PartialEq, Eq, Structural)]
pub struct GridCell {
    pub c: char,
    pub fg: TermColor,
    pub bg: TermColor,
    pub style: CellStyle,
}

/// A rectangle inside a cell, in eighths of the cell's width and height
/// from its top left corner.
#[derive(Debug, Clone, Copy, PartialEq, Eq, Structural)]
pub struct BlockPart {
    pub x: u8,
    pub y: u8,
    pub w: u8,
    pub h: u8,
}

/// What is drawn in the foreground of a cell.
#[derive(Debug)]
pub enum CellGlyph {
    /// Nothing: a space, NUL, or a hidden cell.
    Nothing,
    /// A block-drawing character, drawn as filled rectangles.
    Blocks(Vec<BlockPart>),
    /// A character, shaped as text in the given style.
    Text { ch: char, bold: bool, italic: bool },
}

/// How a cell is painted: the background rectangle, unless it is the
/// default background; the foreground color (RGBA); and the foreground.
#[derive(Debug)]
pub struct CellPaint {
    pub background: Option<(u8, u8, u8)>,
    pub foreground: (u8, u8, u8, u8),
    pub glyph: CellGlyph,
}

pub open spec fn bp(x: u8, y: u8, w: u8, h: u8) -> BlockPart {
    BlockPart { x, y, w, h }
}

/// The quadrants that each of U+2596..U+259F fills: top left 1, top right
/// 2, bottom left 4, bottom right 8.
pub open spec fn quadrant_bits(u: u32) -> u8 {
    if u == 0x2596 { 4 }
    else if u == 0x2597 { 8 }
    else if u == 0x2598 { 1 }
    else if u == 0x2599 { 13 }
    else if u == 0x259A { 9 }
    else if u == 0x259B { 7 }
    else if u == 0x259C { 11 }
    else if u == 0x259D { 2 }
    else if u == 0x259E { 6 }
    else { 14 }
}

/// The quadrants of `bits`, in the order top left, top right, bottom
/// left, bottom right.
pub open spec fn quadrants(bits: u8) -> Seq<BlockPart> {
    let tl = if bits & 1 != 0 { seq![bp(0, 0, 4, 4)] } else { seq![] };
    let tr = if bits & 2 != 0 { seq![bp(4, 0, 4, 4)] } else { seq![] };
    let bl = if bits & 4 != 0 { seq![bp(0, 4, 4, 4)] } else { seq![] };
    let br = if bits & 8 != 0 { seq![bp(4, 4, 4, 4)] } else { seq![] };
    tl + tr + bl + br
}

/// The shapes of a block-drawing character (U+2580..U+259F): lower and left
/// eighths, the upper half, the right half, the upper and right eighths,
/// and the quadrant characters.
pub open spec fn spec_block_parts(c: char) -> Option<Seq<BlockPart>> {
    let u = c as u32;
    if 0x2581 <= u && u <= 0x2588 {
        let n = (u - 0x2580) as u8;
        Some(seq![bp(0, (8 - n) as u8, 8, n)])
    } else if 0x2589 <= u && u <= 0x258F {
        Some(seq![bp(0, 0, (0x2590 - u) as u8, 8)])
    } else if u == 0x2580 {
        Some(seq![bp(0, 0, 8, 4)])
    } else if u == 0x2590 {
        Some(seq![bp(4, 0, 4, 8)])
    } else if u == 0x2594 {
        Some(seq![bp(0, 0, 8, 1)])
    } else if u == 0x2595 {
        Some(seq![bp(7, 0, 1, 8)])
    } else if 0x2596 <= u && u <= 0x259F {
        Some(quadrants(quadrant_bits(u)))
    } else {
        None
    }
}

fn quadrant_parts(bits: u8) -> (r: Vec<BlockPart>)
    ensures
        r@ == quadrants(bits),
{
    let mut v: Vec<BlockPart> = Vec::new();
    if bits & 1 != 0 {
        v.push(BlockPart { x: 0, y: 0, w: 4, h: 4 });
    }
    if bits & 2 != 0 {
        v.push(BlockPart { x: 4, y: 0, w: 4, h: 4 });
    }
    if bits & 4 != 0 {
        v.push(BlockPart { x: 0, y: 4, w: 4, h: 4 });
    }
    if bits & 8 != 0 {
        v.push(BlockPart { x: 4, y: 4, w: 4, h: 4 });
    }
    assert(v@ =~= quadrants(bits));
    v
}

/// The shapes of a block-drawing character, or `None` for other characters.
pub fn block_parts(c: char) -> (r: Option<Vec<BlockPart>>)
    ensures
        match r {
            Some(v) => spec_block_parts(c) == Some(v@),
            None => spec_block_parts(c) is None,
        },
{
    let u = c as u32;
    if 0x2581 <= u && u <= 0x2588 {
        let n = (u - 0x2580) as u8;
        let top: u8 = 8 - n;
        let v = vec![BlockPart { x: 0, y: top, w: 8, h: n }];
        assert(v@ =~= seq![bp(0, (8 - n) as u8, 8, n)]);
        Some(v)
    } else if 0x2589 <= u && u <= 0x258F {
        let width = (0x2590 - u) as u8;
        let v = vec![BlockPart { x: 0, y: 0, w: width, h: 8 }];
        assert(v@ =~= seq![bp(0, 0, (0x2590 - u) as u8, 8)]);
        Some(v)
    } else if u == 0x2580 {
        let v = vec![BlockPart { x: 0, y: 0, w: 8, h: 4 }];
        assert(v@ =~= seq![bp(0, 0, 8, 4)]);
        Some(v)
    } else if u == 0x2590 {
        let v = vec![BlockPart { x: 4, y: 0, w: 4, h: 8 }];
        assert(v@ =~= seq![bp(4, 0, 4, 8)]);
        Some(v)
    } else if u == 0x2594 {
        let v = vec![BlockPart { x: 0, y: 0, w: 8, h: 1 }];
        assert(v@ =~= seq![bp(0, 0, 8, 1)]);
        Some(v)
    } else if u == 0x2595 {
        let v = vec![BlockPart { x: 7, y: 0, w: 1, h: 8 }];
        assert(v@ =~= seq![bp(7, 0, 1, 8)]);
        Some(v)
    } else if 0x2596 <= u && u <= 0x259F {
        let bits: u8 = match u {
            0x2596 => 4,
            0x2597 => 8,
            0x2598 => 1,
            0x2599 => 13,
            0x259A => 9,
            0x259B => 7,
            0x259C => 11,
            0x259D => 2,
            0x259E => 6,
            _ => 14,
        };
        Some(quadrant_parts(bits))
    } else {
        None
    }
}

/// The foreground color of a cell: the color's RGB, opaque, each channel
/// halved when the cell is dim.
pub open spec fn spec_foreground(colors: ColorScheme, fg: TermColor, dim: bool) -> (u8, u8, u8, u8) {
    let (r, g, b) = spec_color_to_rgb(colors, fg);
    if dim {
        ((r / 2) as u8, (g / 2) as u8, (b / 2) as u8, 255)
    } else {
        (r, g, b, 255)
    }
}

/// The colors after inverse video: foreground and background trade places.
pub open spec fn effective_colors(cell: GridCell) -> (TermColor, TermColor) {
    if cell.style.inverse {
        (cell.bg, cell.fg)
    } else {
        (cell.fg, cell.bg)
    }
}

/// The character a cell shows: a space when it is hidden or covered by a
/// wide character.
pub open spec fn shown_char(cell: GridCell) -> char {
    if cell.style.wide_char_spacer || cell.style.leading_wide_char_spacer || cell.style.hidden {
        ' '
    } else {
        cell.c
    }
}

/// Whether a background is the default one, drawn by the panel itself.
pub open spec fn is_default_background(bg: TermColor) -> bool {
    bg == TermColor::Named(crate::colors::NamedColor::Background) || bg == TermColor::Named(
        crate::colors::NamedColor::Cursor,
    )
}

/// How a cell is painted. Inverse video swaps the colors; a background
/// other than the default is filled; a space, NUL, or hidden or covered
/// cell shows nothing; a block-drawing character is drawn as shapes;
/// anything else is text in the cell's weight and slant.
pub fn paint_cell(colors: &ColorScheme, cell: &GridCell) -> (r: CellPaint)
    ensures
        ({
            let (fg, bg) = effective_colors(*cell);
            let ch = shown_char(*cell);
            &&& r.background == (if is_default_background(bg) {
                None
            } else {
                Some(spec_color_to_rgb(*colors, bg))
            })
            &&& r.foreground == spec_foreground(*colors, fg, cell.style.dim)
            &&& if ch == ' ' || ch == '\0' {
                r.glyph is Nothing
            } else if spec_block_parts(ch) is Some {
                r.glyph matches CellGlyph::Blocks(v) && spec_block_parts(ch) == Some(v@)
            } else {
                r.glyph == CellGlyph::Text {
                    ch,
                    bold: cell.style.bold,
                    italic: cell.style.italic,
                }
            }
        }),
{
    let (fg, bg) = if cell.style.inverse {
        (cell.bg, cell.fg)
    } else {
        (cell.fg, cell.bg)
    };
    let background = if colors.is_default_bg(bg) {
        None
    } else {
        Some(colors.color_to_rgb(bg))
    };
    let (r, g, b) = colors.color_to_rgb(fg);
    let foreground = if cell.style.dim {
        (r / 2, g / 2, b / 2, 255u8)
    } else {
        (r, g, b, 255u8)
    };
    let ch = if cell.style.wide_char_spacer || cell.style.leading_wide_char_spacer
        || cell.style.hidden {
        ' '
    } else {
        cell.c
    };
    let glyph = if ch == ' ' || ch == '\0' {
        CellGlyph::Nothing
    } else {
        match block_parts(ch) {
            Some(parts) => CellGlyph::Blocks(parts),
            None => CellGlyph::Text { ch, bold: cell.style.bold, italic: cell.style.italic },
        }
    };
    CellPaint { background, foreground, glyph }
}

// ---------------------------------------------------------------------------
// The text buffers of styled characters
// ---------------------------------------------------------------------------

/// A character in a weight and slant, which has a text buffer of its own.
#[derive(Debug, Clone, Copy, PartialEq, Eq, Hash, Structural)]
pub struct CharKey {
    pub ch: char,
    pub bold: bool,
    pub italic: bool,
}

/// The styled characters that have a text buffer; the buffer of the
/// character at position `i` is buffer `i`.
#[derive(Debug)]
pub struct GlyphCache {
    keys: Vec<CharKey>,
}

/// No styled character is listed twice.
pub open spec fn distinct_keys(keys: Seq<CharKey>) -> bool {
    forall|i: int, j: int| 0 <= i < j < keys.len() ==> keys[i] != keys[j]
}

impl View for GlyphCache {
    type V = Seq<CharKey>;

    closed spec fn view(&self) -> Seq<CharKey> {
        self.keys@
    }
}

impl GlyphCache {
    #[verifier::type_invariant]
    spec fn keys_distinct(self) -> bool {
        distinct_keys(self.keys@)
    }

    pub fn new() -> (r: GlyphCache)
        ensures
            r@ == Seq::<CharKey>::empty(),
    {
        GlyphCache { keys: Vec::new() }
    }

    /// The number of buffers.
    pub fn len(&self) -> (r: usize)
        ensures
            r == self@.len(),
    {
        self.keys.len()
    }

    /// The buffer of `key`, and whether it is new: a character already
    /// listed keeps its buffer; a new one gets the next buffer, which the
    /// caller then creates.
    pub fn index_for(&mut self, key: CharKey) -> (r: (usize, bool))
        ensures
            distinct_keys(final(self)@),
            r.0 < final(self)@.len(),
            final(self)@[r.0 as int] == key,
            r.1 == !old(self)@.contains(key),
            r.1 ==> final(self)@ == old(self)@.push(key) && r.0 == old(self)@.len(),
            !r.1 ==> final(self)@ == old(self)@,
    {
        proof {
            use_type_invariant(&*self);
        }
        let mut i: usize = 0;
        while i < self.keys.len()
            invariant
                i <= self@.len(),
                self@ == old(self)@,
                distinct_keys(old(self)@),
                forall|j: int| 0 <= j < i ==> self@[j] != key,
            decreases self.keys.len() - i,
        {
            if self.keys[i] == key {
                return (i, false);
            }
            i += 1;
        }
        let idx = self.keys.len();
        let mut keys: Vec<CharKey> = Vec::new();
        std::mem::swap(&mut keys, &mut self.keys);
        keys.push(key);
        std::mem::swap(&mut keys, &mut self.keys);
        (idx, true)
    }
}

/// Each styled character has one buffer: two buffers of a cache never
/// belong to the same character.
pub proof fn law_one_buffer_per_character(keys: Seq<CharKey>, i: int, j: int)
    requires
        distinct_keys(keys),
        0 <= i < keys.len(),
        0 <= j < keys.len(),
        keys[i] == keys[j],
    ensures
        i == j,
{
}


/// A rectangle lies inside the cell (eight eighths each way) and is not empty.
pub open spec fn inside_cell(p: BlockPart) -> bool {
    p.w > 0 && p.h > 0 && p.x + p.w <= 8 && p.y + p.h <= 8
}

/// Block characters are drawn as what they picture: every shape lies
/// inside the cell; U+2581..U+2588 fill the bottom k eighths for k = 1..8
/// (U+2588 the whole cell); U+2589..U+258F fill the left 7..1 eighths; U+2580
/// and U+2590 the upper and the right half; U+2594 and U+2595 the top and the
/// right eighth; U+2596, U+2597, U+2598 and U+259D the lower left, lower
/// right, upper left and upper right quadrant. Other characters are no blocks.
pub proof fn law_blocks_picture_their_character(c: char, k: u8)
    ensures
        spec_block_parts(c) is Some ==> forall|i: int|
            0 <= i < spec_block_parts(c)->0.len() ==> inside_cell(
                #[trigger] spec_block_parts(c)->0[i],
            ),
        1 <= k <= 8 && c as u32 == 0x2580 + k ==> spec_block_parts(c) == Some(
            seq![bp(0, (8 - k) as u8, 8, k)],
        ),
        1 <= k <= 7 && c as u32 == 0x2590 - k ==> spec_block_parts(c) == Some(
            seq![bp(0, 0, k, 8)],
        ),
        c as u32 == 0x2580 ==> spec_block_parts(c) == Some(seq![bp(0, 0, 8, 4)]),
        c as u32 == 0x2590 ==> spec_block_parts(c) == Some(seq![bp(4, 0, 4, 8)]),
        c as u32 == 0x2594 ==> spec_block_parts(c) == Some(seq![bp(0, 0, 8, 1)]),
        c as u32 == 0x2595 ==> spec_block_parts(c) == Some(seq![bp(7, 0, 1, 8)]),
        c as u32 == 0x2596 ==> spec_block_parts(c) == Some(seq![bp(0, 4, 4, 4)]),
        c as u32 == 0x2597 ==> spec_block_parts(c) == Some(seq![bp(4, 4, 4, 4)]),
        c as u32 == 0x2598 ==> spec_block_parts(c) == Some(seq![bp(0, 0, 4, 4)]),
        c as u32 == 0x259D ==> spec_block_parts(c) == Some(seq![bp(4, 0, 4, 4)]),
        (c as u32) < 0x2580 || (c as u32) > 0x259F || (0x2591 <= (c as u32) && (c as u32) <= 0x2593)
            ==> spec_block_parts(c) is None,
{
    let u = c as u32;
    if 0x2596 <= u && u <= 0x259F {
        let b = quadrant_bits(u);
        assert(b & 1 == 0 || b & 1 == 1) by (bit_vector);
        assert(4u8 & 1 == 0 && 4u8 & 2 == 0 && 4u8 & 4 != 0 && 4u8 & 8 == 0) by (bit_vector);
        assert(8u8 & 1 == 0 && 8u8 & 2 == 0 && 8u8 & 4 == 0 && 8u8 & 8 != 0) by (bit_vector);
        assert(1u8 & 1 != 0 && 1u8 & 2 == 0 && 1u8 & 4 == 0 && 1u8 & 8 == 0) by (bit_vector);
        assert(2u8 & 1 == 0 && 2u8 & 2 != 0 && 2u8 & 4 == 0 && 2u8 & 8 == 0) by (bit_vector);
        let q = quadrants(b);
        assert(forall|i: int| 0 <= i < q.len() ==> inside_cell(#[trigger] q[i]));
        if u == 0x2596 {
            assert(q =~= seq![bp(0, 4, 4, 4)]);
        } else if u == 0x2597 {
            assert(q =~= seq![bp(4, 4, 4, 4)]);
        } else if u == 0x2598 {
            assert(q =~= seq![bp(0, 0, 4, 4)]);
        } else if u == 0x259D {
            assert(q =~= seq![bp(4, 0, 4, 4)]);
        }
    }
}


/// Painting relations: a cell in inverse video is painted as the same cell
/// with its two colors exchanged; a dim foreground is the plain one with
/// each channel halved, and every foreground is opaque; a hidden cell, or
/// one covered by a wide character, shows no character; the default
/// background (and the cursor color) is left to the panel, any other
/// background is filled.
pub proof fn law_paint_relations(colors: ColorScheme, cell: GridCell)
    ensures
        effective_colors(GridCell { style: CellStyle { inverse: true, ..cell.style }, ..cell })
            == effective_colors(
            GridCell { fg: cell.bg, bg: cell.fg, style: CellStyle { inverse: false, ..cell.style }, ..cell },
        ),
        effective_colors(GridCell { style: CellStyle { inverse: false, ..cell.style }, ..cell }) == (
            cell.fg,
            cell.bg,
        ),
        ({
            let plain = spec_foreground(colors, cell.fg, false);
            let dim = spec_foreground(colors, cell.fg, true);
            &&& plain.3 == 255 && dim.3 == 255
            &&& dim.0 == plain.0 / 2 && dim.1 == plain.1 / 2 && dim.2 == plain.2 / 2
            &&& (plain.0, plain.1, plain.2) == spec_color_to_rgb(colors, cell.fg)
        }),
        cell.style.hidden || cell.style.wide_char_spacer || cell.style.leading_wide_char_spacer
            ==> shown_char(cell) == ' ',
        !(cell.style.hidden || cell.style.wide_char_spacer || cell.style.leading_wide_char_spacer)
            ==> shown_char(cell) == cell.c,
        is_default_background(TermColor::Named(crate::colors::NamedColor::Background)),
        is_default_background(TermColor::Named(crate::colors::NamedColor::Cursor)),
        forall|i: u8| !#[trigger] is_default_background(TermColor::Indexed(i)),
{
}

} // verus!
