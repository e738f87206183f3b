//! Text on the surface: glyphs of eight by eight pixels from the basic font,
//! drawn in white, plain or inverted.

use font8x8::{UnicodeFonts, BASIC_FONTS};
use vstd::prelude::*;

use crate::framebuffer::Framebuffer;

verus! {

/// Height of a line of text in pixels.
pub const LINE_H: usize = 16;

/// Width of the cell of one character in pixels.
pub const SPACE_SIZE: usize = 8;

/// Rows and columns of a glyph.
pub const GLYPH_SIZE: usize = 8;

/// The colour of text.
pub const WHITE: u16 = 0xffff;

/// The bitmap that the basic font holds for `c`: eight rows from the top,
/// in each row bit 0 for the leftmost pixel. `None` for a character that
/// the font does not cover.
pub uninterp spec fn basic_glyph(c: char) -> Option<Seq<u8>>;

/// Looks `c` up in `font8x8::BASIC_FONTS` with `UnicodeFonts::get`. The
/// lookup is a search in a constant table, so the result depends on `c`
/// alone; the contract names it and says nothing of the bitmaps themselves.
#[verifier::external_body]
fn basic_font_glyph(c: char) -> (glyph: Option<[u8; 8]>)
    ensures
        match glyph {
            Some(rows) => basic_glyph(c) == Some(rows@),
            None => basic_glyph(c).is_none(),
        },
{
    BASIC_FONTS.get(c)
}

/// The bitmap drawn for `c`: its glyph in the basic font, and an empty cell
/// for a character that the font does not cover.
pub open spec fn glyph_rows(c: char) -> Seq<u8> {
    match basic_glyph(c) {
        Some(rows) => rows,
        None => Seq::new(8, |i: int| 0u8),
    }
}

/// Whether drawing the bitmap `glyph` paints the pixel at column `col` of
/// row `row` of its cell: the set bits of a plain glyph, the clear bits of
/// an inverted one.
pub open spec fn paints(glyph: Seq<u8>, col: int, row: int, invert: bool) -> bool {
    ((glyph[row] & (1u8 << (col as u8))) != 0) != invert
}

/// Whether `(px, py)` lies in the cell of eight by eight pixels whose top
/// left corner is `(x, y)`.
pub open spec fn in_cell(x: int, y: int, px: int, py: int) -> bool {
    x <= px < x + GLYPH_SIZE && y <= py < y + GLYPH_SIZE
}

/// Whether drawing `text` from `(x, y)` on paints the pixel `(px, py)`: the
/// characters stand side by side in cells of eight pixels.
pub open spec fn text_paints(text: Seq<char>, x: int, y: int, invert: bool, px: int, py: int) -> bool {
    &&& y <= py < y + GLYPH_SIZE
    &&& x <= px
    &&& (px - x) / (SPACE_SIZE as int) < text.len()
    &&& paints(
        glyph_rows(text[(px - x) / (SPACE_SIZE as int)]),
        (px - x) % (SPACE_SIZE as int),
        py - y,
        invert,
    )
}

/// The surface `after` is `before` with the pixels for which `painted` holds
/// set to white, as far as they are visible. Nothing else has changed.
pub open spec fn overlaid(
    after: &Framebuffer,
    before: &Framebuffer,
    painted: spec_fn(int, int) -> bool,
) -> bool {
    &&& after.wf()
    &&& after.same_layout(before)
    &&& after.spec_rest() == before.spec_rest()
    &&& forall|px: int, py: int|
        0 <= px < before.spec_stride() && 0 <= py < before.spec_height()
            ==> #[trigger] after.spec_pixel(px, py) == if before.in_bounds(px, py) && painted(
            px,
            py,
        ) {
            WHITE
        } else {
            before.spec_pixel(px, py)
        }
}

/// Draws a bitmap of eight rows into the cell whose top left corner is
/// `(x, y)`. Only painted pixels are written, so what lies under the rest of
/// the cell stays; pixels outside the surface are skipped.
pub fn draw_glyph(fb: &mut Framebuffer, x: usize, y: usize, glyph: &[u8; 8], invert: bool)
    requires
        old(fb).wf(),
    ensures
        overlaid(
            final(fb),
            old(fb),
            |px: int, py: int|
                in_cell(x as int, y as int, px, py) && paints(glyph@, px - x, py - y, invert),
        ),
{
    if x >= fb.width() || y >= fb.height() {
        return ;
    }
    let mut row: usize = 0;
    while row < GLYPH_SIZE
        invariant
            row <= GLYPH_SIZE,
            x < old(fb).spec_width(),
            y < old(fb).spec_height(),
            overlaid(
                fb,
                old(fb),
                |px: int, py: int|
                    in_cell(x as int, y as int, px, py) && py - y < row && paints(
                        glyph@,
                        px - x,
                        py - y,
                        invert,
                    ),
            ),
        decreases GLYPH_SIZE - row,
    {
        let bits: u8 = glyph[row];
        let mut col: usize = 0;
        while col < GLYPH_SIZE
            invariant
                col <= GLYPH_SIZE,
                row < GLYPH_SIZE,
                bits == glyph@[row as int],
                x < old(fb).spec_width(),
                y < old(fb).spec_height(),
                overlaid(
                    fb,
                    old(fb),
                    |px: int, py: int|
                        in_cell(x as int, y as int, px, py) && (py - y < row || (py - y == row
                            && px - x < col)) && paints(glyph@, px - x, py - y, invert),
                ),
            decreases GLYPH_SIZE - col,
        {
            let mask: u8 = bits & (1u8 << (col as u8));
            if (mask != 0) != invert {
                proof {
                    fb.lemma_dimensions_fit();
                }
                fb.put_pixel(x + col, y + row, WHITE);
            }
            col += 1;
        }
        row += 1;
    }
}

/// Draws a character in the framebuffer, in the cell whose top left corner
/// is `(x, y)`. A character that the font does not cover leaves an empty
/// cell, which is a white block when inverted.
pub fn draw_char(fb: &mut Framebuffer, x: usize, y: usize, c: char, invert: bool)
    requires
        old(fb).wf(),
    ensures
        overlaid(
            final(fb),
            old(fb),
            |px: int, py: int|
                in_cell(x as int, y as int, px, py) && paints(glyph_rows(c), px - x, py - y, invert),
        ),
{
    let glyph: [u8; 8] = match basic_font_glyph(c) {
        Some(rows) => rows,
        None => [0u8; 8],
    };
    assert(glyph@ =~= glyph_rows(c));
    draw_glyph(fb, x, y, &glyph, invert);
}

/// Draws a line of text from `(x, y)` on, one cell after the other, and
/// moves `y` down to the next line.
pub fn draw_text(fb: &mut Framebuffer, text: &str, x: usize, y: &mut usize, invert: bool)
    requires
        old(fb).wf(),
        *old(y) + LINE_H <= usize::MAX,
    ensures
        overlaid(
            final(fb),
            old(fb),
            |px: int, py: int| text_paints(text@, x as int, *old(y) as int, invert, px, py),
        ),
        *final(y) == *old(y) + LINE_H,
{
    let top: usize = *y;
    *y = top + LINE_H;
    if top >= fb.height() {
        return ;
    }
    let len: usize = text.unicode_len();
    let mut i: usize = 0;
    let mut left: usize = x;
    while i < len && left < fb.width()
        invariant
            i <= len,
            len == text@.len(),
            left == x + SPACE_SIZE * i,
            top < old(fb).spec_height(),
            overlaid(
                fb,
                old(fb),
                |px: int, py: int|
                    text_paints(text@, x as int, top as int, invert, px, py) && (px - x) / (
                    SPACE_SIZE as int) < i,
            ),
        decreases len - i,
    {
        let ghost prev = *fb;
        let c: char = text.get_char(i);
        draw_char(fb, left, top, c, invert);
        proof {
            prev.lemma_dimensions_fit();
            assert forall|px: int, py: int|
                0 <= px < prev.spec_stride() && 0 <= py
                    < prev.spec_height() implies #[trigger] fb.spec_pixel(px, py) == if old(
                fb,
            ).in_bounds(px, py) && text_paints(text@, x as int, top as int, invert, px, py) && (px
                - x) / (SPACE_SIZE as int) < i + 1 {
                WHITE
            } else {
                old(fb).spec_pixel(px, py)
            } by {
                assert(prev.spec_pixel(px, py) == if old(fb).in_bounds(px, py) && text_paints(
                    text@,
                    x as int,
                    top as int,
                    invert,
                    px,
                    py,
                ) && (px - x) / (SPACE_SIZE as int) < i {
                    WHITE
                } else {
                    old(fb).spec_pixel(px, py)
                });
                if px >= x {
                    assert(in_cell(left as int, top as int, px, py) <==> (top <= py < top
                        + GLYPH_SIZE && (px - x) / 8 == i));
                    if (px - x) / 8 == i {
                        assert((px - x) % 8 == px - left);
                    }
                }
            }
        }
        left += SPACE_SIZE;
        i += 1;
    }
}

} // verus!
