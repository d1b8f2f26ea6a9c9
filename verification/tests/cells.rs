use pfauterminal::cells::{
    block_parts, paint_cell, BlockPart, CellGlyph, CellStyle, CharKey, GlyphCache, GridCell,
};
use pfauterminal::colors::{ColorScheme, NamedColor, Rgb, TermColor};

fn plain() -> CellStyle {
    CellStyle {
        inverse: false,
        hidden: false,
        wide_char_spacer: false,
        leading_wide_char_spacer: false,
        dim: false,
        bold: false,
        italic: false,
    }
}

fn part(x: u8, y: u8, w: u8, h: u8) -> BlockPart {
    BlockPart { x, y, w, h }
}

#[test]
fn block_characters_in_eighths() {
    assert_eq!(block_parts('▁'), Some(vec![part(0, 7, 8, 1)]));
    assert_eq!(block_parts('█'), Some(vec![part(0, 0, 8, 8)]));
    assert_eq!(block_parts('▉'), Some(vec![part(0, 0, 7, 8)]));
    assert_eq!(block_parts('▏'), Some(vec![part(0, 0, 1, 8)]));
    assert_eq!(block_parts('▀'), Some(vec![part(0, 0, 8, 4)]));
    assert_eq!(block_parts('▐'), Some(vec![part(4, 0, 4, 8)]));
    assert_eq!(block_parts('▔'), Some(vec![part(0, 0, 8, 1)]));
    assert_eq!(block_parts('▕'), Some(vec![part(7, 0, 1, 8)]));
    assert_eq!(block_parts('▖'), Some(vec![part(0, 4, 4, 4)]));
    assert_eq!(
        block_parts('▙'),
        Some(vec![part(0, 0, 4, 4), part(0, 4, 4, 4), part(4, 4, 4, 4)])
    );
    assert_eq!(block_parts('▟'), Some(vec![part(4, 0, 4, 4), part(0, 4, 4, 4), part(4, 4, 4, 4)]));
    assert_eq!(block_parts('░'), None);
    assert_eq!(block_parts('a'), None);
}

#[test]
fn cells_paint_colors_and_glyphs() {
    let colors = ColorScheme::default();
    let fg = colors.foreground;
    let cell = GridCell {
        c: 'x',
        fg: TermColor::Named(NamedColor::Foreground),
        bg: TermColor::Named(NamedColor::Background),
        style: CellStyle { bold: true, ..plain() },
    };
    let p = paint_cell(&colors, &cell);
    assert_eq!(p.background, None);
    assert_eq!(p.foreground, (fg.r, fg.g, fg.b, 255));
    assert!(matches!(p.glyph, CellGlyph::Text { ch: 'x', bold: true, italic: false }));

    let inverse = GridCell {
        c: 'y',
        fg: TermColor::Spec(Rgb { r: 10, g: 20, b: 30 }),
        bg: TermColor::Indexed(21),
        style: CellStyle { inverse: true, dim: true, ..plain() },
    };
    let q = paint_cell(&colors, &inverse);
    assert_eq!(q.background, Some((10, 20, 30)));
    assert_eq!(q.foreground, (0, 0, 127, 255));

    let hidden = GridCell { style: CellStyle { hidden: true, ..plain() }, ..cell };
    assert!(matches!(paint_cell(&colors, &hidden).glyph, CellGlyph::Nothing));
    let spacer = GridCell { style: CellStyle { wide_char_spacer: true, ..plain() }, ..cell };
    assert!(matches!(paint_cell(&colors, &spacer).glyph, CellGlyph::Nothing));
    let nul = GridCell { c: '\0', ..cell };
    assert!(matches!(paint_cell(&colors, &nul).glyph, CellGlyph::Nothing));
    let block = GridCell { c: '▀', ..cell };
    assert!(matches!(paint_cell(&colors, &block).glyph, CellGlyph::Blocks(ref v) if *v == vec![part(0, 0, 8, 4)]));
}

#[test]
fn glyph_cache_reuses_buffers() {
    let mut cache = GlyphCache::new();
    let a = CharKey { ch: 'a', bold: false, italic: false };
    let a_bold = CharKey { ch: 'a', bold: true, italic: false };
    assert_eq!(cache.index_for(a), (0, true));
    assert_eq!(cache.index_for(a_bold), (1, true));
    assert_eq!(cache.index_for(a), (0, false));
    assert_eq!(cache.len(), 2);
}
