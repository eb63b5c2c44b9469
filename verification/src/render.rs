//! What the screen shows, as lists of filled rectangles: a block with a
//! darker border, and text drawn from a bitmap font.
use vstd::prelude::*;
use crate::pieces::Rgb;

verus! {

/// An axis-aligned rectangle on the screen: top-left corner and size in pixels.
#[derive(Debug, Clone, Copy, PartialEq, Eq, Structural)]
pub struct PixelRect {
    pub x: i32,
    pub y: i32,
    pub width: u32,
    pub height: u32,
}

/// A rectangle to fill with a colour.
#[derive(Debug, Clone, Copy, PartialEq, Eq, Structural)]
pub struct FilledRect {
    pub rect: PixelRect,
    pub color: Rgb,
}

/// Width in pixels of the darker border drawn round a block.
pub const BORDER_THICKNESS: u32 = 2;

/// `a - b`, or 0 when `b` is larger.
pub open spec fn sub_or_zero(a: u8, b: u8) -> u8 {
    if a >= b {
        (a - b) as u8
    } else {
        0
    }
}

/// The border colour of a block: each channel 50 darker, down to 0.
pub open spec fn border_color(c: Rgb) -> Rgb {
    Rgb { r: sub_or_zero(c.r, 50), g: sub_or_zero(c.g, 50), b: sub_or_zero(c.b, 50) }
}

/// The fills that draw a block of side `block_size` at (`x`, `y`): the whole
/// square in the border colour, then, when the side leaves room for the
/// border on both sides, the inner square in the block's colour, or else the
/// whole square again in the block's colour.
pub open spec fn block_fills(x: i32, y: i32, block_size: u32, main_color: Rgb) -> Seq<FilledRect> {
    let whole = PixelRect { x, y, width: block_size, height: block_size };
    let inner = if block_size > 2 * BORDER_THICKNESS {
        PixelRect {
            x: (x + BORDER_THICKNESS) as i32,
            y: (y + BORDER_THICKNESS) as i32,
            width: (block_size - 2 * BORDER_THICKNESS) as u32,
            height: (block_size - 2 * BORDER_THICKNESS) as u32,
        }
    } else {
        whole
    };
    seq![
        FilledRect { rect: whole, color: border_color(main_color) },
        FilledRect { rect: inner, color: main_color },
    ]
}

/// The fills, in drawing order, of a block of side `block_size` with its
/// top-left corner at (`x`, `y`), drawn in `main_color` with a darker border.
pub fn block_with_border_rects(x: i32, y: i32, block_size: u32, main_color: Rgb) -> (fills: Vec<
    FilledRect,
>)
    requires
        block_size > 2 * BORDER_THICKNESS ==> x + BORDER_THICKNESS <= i32::MAX && y
            + BORDER_THICKNESS <= i32::MAX,
    ensures
        fills@ == block_fills(x, y, block_size, main_color),
{
    let border_thickness: u32 = BORDER_THICKNESS;
    let border_color = Rgb {
        r: main_color.r.saturating_sub(50),
        g: main_color.g.saturating_sub(50),
        b: main_color.b.saturating_sub(50),
    };
    let mut fills: Vec<FilledRect> = Vec::new();
    fills.push(
        FilledRect {
            rect: PixelRect { x, y, width: block_size, height: block_size },
            color: border_color,
        },
    );
    if block_size > 2 * border_thickness {
        fills.push(
            FilledRect {
                rect: PixelRect {
                    x: x + border_thickness as i32,
                    y: y + border_thickness as i32,
                    width: block_size - (2 * border_thickness),
                    height: block_size - (2 * border_thickness),
                },
                color: main_color,
            },
        );
    } else {
        fills.push(
            FilledRect {
                rect: PixelRect { x, y, width: block_size, height: block_size },
                color: main_color,
            },
        );
    }
    assert(fills@ =~= block_fills(x, y, block_size, main_color));
    fills
}

/// Number of pixel columns of a glyph; bit 4 of a glyph row is its left column.
pub const GLYPH_WIDTH: i32 = 5;

/// Column `col` (0 to 4, left to right) of a glyph row is lit.
pub open spec fn pixel_lit(bits: u8, col: i32) -> bool {
    (bits >> ((4 - col) as u8)) & 1u8 == 1u8
}

/// The squares of side `scale` for the lit columns among the first `cols` of
/// a glyph row whose left pixel is at (`ox`, `oy`), left to right.
pub open spec fn row_pixels(bits: u8, ox: int, oy: int, scale: int, cols: int) -> Seq<PixelRect>
    decreases cols,
{
    if cols <= 0 {
        Seq::empty()
    } else {
        let before = row_pixels(bits, ox, oy, scale, cols - 1);
        if pixel_lit(bits, (cols - 1) as i32) {
            before.push(
                PixelRect {
                    x: (ox + (cols - 1) * scale) as i32,
                    y: oy as i32,
                    width: scale as u32,
                    height: scale as u32,
                },
            )
        } else {
            before
        }
    }
}

/// Column 0 of a glyph row is its bit 4 (value 16), column 1 bit 3 (8),
/// column 2 bit 2 (4), column 3 bit 1 (2) and column 4 bit 0 (1): the most
/// significant of the five bits is the leftmost pixel.
pub proof fn lemma_pixel_columns(bits: u8)
    ensures
        pixel_lit(bits, 0) == (bits & 16u8 != 0u8),
        pixel_lit(bits, 1) == (bits & 8u8 != 0u8),
        pixel_lit(bits, 2) == (bits & 4u8 != 0u8),
        pixel_lit(bits, 3) == (bits & 2u8 != 0u8),
        pixel_lit(bits, 4) == (bits & 1u8 != 0u8),
{
    assert(((bits >> 4u8) & 1u8 == 1u8) == (bits & 16u8 != 0u8)) by (bit_vector);
    assert(((bits >> 3u8) & 1u8 == 1u8) == (bits & 8u8 != 0u8)) by (bit_vector);
    assert(((bits >> 2u8) & 1u8 == 1u8) == (bits & 4u8 != 0u8)) by (bit_vector);
    assert(((bits >> 1u8) & 1u8 == 1u8) == (bits & 2u8 != 0u8)) by (bit_vector);
    assert(((bits >> 0u8) & 1u8 == 1u8) == (bits & 1u8 != 0u8)) by (bit_vector);
}

/// In a glyph row the square for column `c` stands `c * scale` pixels right
/// of the glyph's left edge, and is drawn exactly when that column is lit:
/// a row with only bit 4 set draws one square at the left edge, one with
/// only bit 0 set one square `4 * scale` to the right.
pub proof fn lemma_row_pixels_columns(ox: int, oy: int, scale: int)
    ensures
        row_pixels(16u8, ox, oy, scale, 5) == seq![
            PixelRect { x: ox as i32, y: oy as i32, width: scale as u32, height: scale as u32 },
        ],
        row_pixels(1u8, ox, oy, scale, 5) == seq![
            PixelRect {
                x: (ox + 4 * scale) as i32,
                y: oy as i32,
                width: scale as u32,
                height: scale as u32,
            },
        ],
        row_pixels(0u8, ox, oy, scale, 5) == Seq::<PixelRect>::empty(),
{
    reveal_with_fuel(row_pixels, 6);
    lemma_pixel_columns(16u8);
    lemma_pixel_columns(1u8);
    lemma_pixel_columns(0u8);
    assert(16u8 & 16u8 != 0u8 && 16u8 & 8u8 == 0u8 && 16u8 & 4u8 == 0u8 && 16u8 & 2u8 == 0u8 && 16u8
        & 1u8 == 0u8) by (bit_vector);
    assert(1u8 & 16u8 == 0u8 && 1u8 & 8u8 == 0u8 && 1u8 & 4u8 == 0u8 && 1u8 & 2u8 == 0u8 && 1u8 & 1u8
        != 0u8) by (bit_vector);
    assert(0u8 & 16u8 == 0u8 && 0u8 & 8u8 == 0u8 && 0u8 & 4u8 == 0u8 && 0u8 & 2u8 == 0u8 && 0u8 & 1u8
        == 0u8) by (bit_vector);
    assert(row_pixels(16u8, ox, oy, scale, 5) =~= seq![
        PixelRect { x: ox as i32, y: oy as i32, width: scale as u32, height: scale as u32 },
    ]);
    assert(row_pixels(1u8, ox, oy, scale, 5) =~= seq![
        PixelRect {
            x: (ox + 4 * scale) as i32,
            y: oy as i32,
            width: scale as u32,
            height: scale as u32,
        },
    ]);
}

/// The squares for the first `rows` rows of a glyph with its top-left pixel
/// at (`ox`, `oy`), top to bottom.
pub open spec fn glyph_pixels(glyph: Seq<u8>, ox: int, oy: int, scale: int, rows: int) -> Seq<PixelRect>
    decreases rows,
{
    if rows <= 0 {
        Seq::empty()
    } else {
        glyph_pixels(glyph, ox, oy, scale, rows - 1) + row_pixels(
            glyph[rows - 1],
            ox,
            oy + (rows - 1) * scale,
            scale,
            GLYPH_WIDTH as int,
        )
    }
}

/// The squares for the first `count` characters of a text, given the glyph
/// of each character (none for a character the font lacks), starting at
/// (`x`, `y`), each character `GLYPH_WIDTH * scale` pixels right of the one before.
pub open spec fn text_pixels(glyphs: Seq<Option<Vec<u8>>>, x: int, y: int, scale: int, count: int) -> Seq<
    PixelRect,
>
    decreases count,
{
    if count <= 0 {
        Seq::empty()
    } else {
        let before = text_pixels(glyphs, x, y, scale, count - 1);
        match glyphs[count - 1] {
            Some(g) => before + glyph_pixels(
                g@,
                x + (count - 1) * GLYPH_WIDTH * scale,
                y,
                scale,
                g@.len() as int,
            ),
            None => before,
        }
    }
}

/// Every pixel of the text lands on representable coordinates.
pub open spec fn text_fits(glyphs: Seq<Option<Vec<u8>>>, x: int, y: int, scale: int) -> bool {
    &&& 0 <= scale
    &&& GLYPH_WIDTH * scale <= i32::MAX
    &&& glyphs.len() <= i32::MAX
    &&& GLYPH_WIDTH * scale * glyphs.len() <= i32::MAX
    &&& x + GLYPH_WIDTH * scale * glyphs.len() <= i32::MAX
    &&& forall|k: int|
        0 <= k < glyphs.len() && (#[trigger] glyphs[k]) is Some ==> glyphs[k]->0@.len() <= i32::MAX
            && scale * glyphs[k]->0@.len() <= i32::MAX && y + scale * glyphs[k]->0@.len() <= i32::MAX
}

/// The squares of side `scale` that draw a text in a bitmap font: for the
/// `i`-th character with a glyph, each lit pixel in row `r`, column `c` of the
/// glyph gives the square at (`x + (i * GLYPH_WIDTH + c) * scale`, `y + r * scale`).
/// `glyphs` holds, for each character of the text, its glyph rows, if the font has one.
pub fn text_pixel_rects(glyphs: &Vec<Option<Vec<u8>>>, x: i32, y: i32, scale: i32) -> (rects: Vec<
    PixelRect,
>)
    requires
        text_fits(glyphs@, x as int, y as int, scale as int),
    ensures
        rects@ == text_pixels(glyphs@, x as int, y as int, scale as int, glyphs@.len() as int),
{
    let char_width: i32 = GLYPH_WIDTH * scale;
    let mut rects: Vec<PixelRect> = Vec::new();
    let mut i: usize = 0;
    while i < glyphs.len()
        invariant
            0 <= i <= glyphs@.len(),
            text_fits(glyphs@, x as int, y as int, scale as int),
            char_width == GLYPH_WIDTH * scale,
            rects@ == text_pixels(glyphs@, x as int, y as int, scale as int, i as int),
        decreases glyphs@.len() - i,
    {
        match &glyphs[i] {
            Some(char_data) => {
                assert(glyphs@[i as int] is Some);
                proof {
                    let n = glyphs@.len() as int;
                    let s = scale as int;
                    assert(0 <= i * (5 * s) && i * (5 * s) + 5 * s <= 5 * s * n) by (nonlinear_arith)
                        requires
                            0 <= s,
                            0 <= i < n,
                    ;
                    assert(i * char_width == i * (5 * s));
                    assert(i * (5 * s) == i * 5 * s) by (nonlinear_arith);

                }
                let ox: i32 = x + (i as i32) * char_width;
                let ghost start = rects@;
                let mut row_idx: usize = 0;
                while row_idx < char_data.len()
                    invariant
                        0 <= row_idx <= char_data@.len(),
                        char_data@.len() <= i32::MAX,
                        0 <= scale,
                        GLYPH_WIDTH * scale <= i32::MAX,
                        scale * char_data@.len() <= i32::MAX,
                        y + scale * char_data@.len() <= i32::MAX,
                        ox + GLYPH_WIDTH * scale <= i32::MAX,
                        rects@ == start + glyph_pixels(
                            char_data@,
                            ox as int,
                            y as int,
                            scale as int,
                            row_idx as int,
                        ),
                    decreases char_data@.len() - row_idx,
                {
                    let row_data = char_data[row_idx];
                    proof {
                        assert(0 <= row_idx * scale <= scale * char_data@.len()) by (nonlinear_arith)
                            requires
                                0 <= scale,
                                0 <= row_idx < char_data@.len(),
                        ;
                    }
                    let py: i32 = y + (row_idx as i32) * scale;
                    let ghost row_start = rects@;
                    let mut col_idx: i32 = 0;
                    while col_idx < GLYPH_WIDTH
                        invariant
                            0 <= col_idx <= GLYPH_WIDTH,
                            0 <= scale,
                            GLYPH_WIDTH * scale <= i32::MAX,
                            ox + GLYPH_WIDTH * scale <= i32::MAX,
                            rects@ == row_start + row_pixels(
                                row_data,
                                ox as int,
                                py as int,
                                scale as int,
                                col_idx as int,
                            ),
                        decreases GLYPH_WIDTH - col_idx,
                    {
                        proof {
                            assert(0 <= col_idx * scale <= 5 * scale) by (nonlinear_arith)
                                requires
                                    0 <= scale,
                                    0 <= col_idx < 5,
                            ;
                        }
                        if (row_data >> ((4 - col_idx) as u8)) & 1 == 1 {
                            let px = ox + col_idx * scale;
                            rects.push(PixelRect { x: px, y: py, width: scale as u32, height: scale as u32 });
                        }
                        col_idx += 1;
                    }
                    proof {
                        let oy = y + row_idx * scale;
                        assert(py as int == oy);
                        assert(start + glyph_pixels(char_data@, ox as int, y as int, scale as int, row_idx + 1)
                            =~= row_start + row_pixels(row_data, ox as int, py as int, scale as int, 5));
                    }
                    row_idx += 1;
                }
                proof {
                    assert(glyphs@[i as int] == Some(*char_data));
                    assert(ox as int == x + i * GLYPH_WIDTH * scale);
                }
            },
            None => {},
        }
        i += 1;
    }
    rects
}

} // verus!
