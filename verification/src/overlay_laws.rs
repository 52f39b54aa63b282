//! The two ways to draw the overlay show the same.
use crate::overlay::{
    dot_rect, dot_set, font_rows, glyph_code, glyph_rects, is_lit, lemma_widest, line_rects,
    overlay_font, overlay_height, overlay_width, row_rects, text_rects, widest, GLYPH,
    LINE_HEIGHT, PADDING,
};
use crate::text::lines;
use crate::widgets::{law_rect_held, Rect, MAX_EXTENT};
use vstd::prelude::*;

verus! {

/// A pixel lies in one of the rectangles.
pub open spec fn covered(rects: Seq<Rect>, x: int, y: int) -> bool {
    exists|i: int| 0 <= i < rects.len() && (#[trigger] rects[i]).contains(x as i32, y as i32)
}

proof fn lemma_covered_add(a: Seq<Rect>, b: Seq<Rect>, x: int, y: int)
    ensures
        covered(a + b, x, y) <==> covered(a, x, y) || covered(b, x, y),
{
    let both = a + b;
    if covered(both, x, y) {
        let i = choose|i: int|
            0 <= i < both.len() && (#[trigger] both[i]).contains(x as i32, y as i32);
        if i < a.len() {
            assert(a[i].contains(x as i32, y as i32));
        } else {
            assert(b[i - a.len()].contains(x as i32, y as i32));
        }
    }
    if covered(a, x, y) {
        let i = choose|i: int| 0 <= i < a.len() && (#[trigger] a[i]).contains(x as i32, y as i32);
        assert(both[i].contains(x as i32, y as i32));
    }
    if covered(b, x, y) {
        let i = choose|i: int| 0 <= i < b.len() && (#[trigger] b[i]).contains(x as i32, y as i32);
        assert(both[i + a.len()].contains(x as i32, y as i32));
    }
}

/// The point is one that a window can have.
spec fn on_screen(x: int, y: int) -> bool {
    0 <= x <= MAX_EXTENT && 0 <= y <= MAX_EXTENT
}

proof fn lemma_row_covered(bits: u8, left: int, top: int, n: nat, x: int, y: int)
    requires
        on_screen(left, top),
        on_screen(left + 16, top + 2),
        on_screen(x, y),
        n <= 8,
    ensures
        covered(row_rects(bits, left, top, n), x, y) <==> top <= y < top + 2 && left <= x < left + 2
            * n && dot_set(bits, ((x - left) / 2) as u8),
    decreases n,
{
    if n > 0 {
        let k = (n - 1) as nat;
        lemma_row_covered(bits, left, top, k, x, y);
        let before = row_rects(bits, left, top, k);
        let dot = dot_rect(left + k * 2, top);
        law_rect_held((left + k * 2) as i32, top as i32, 2, 2);
        assert(before.push(dot) =~= before + seq![dot]);
        lemma_covered_add(before, seq![dot], x, y);
        assert(covered(seq![dot], x, y) <==> dot.contains(x as i32, y as i32)) by {
            assert(seq![dot][0] == dot);
        }
    }
}

proof fn lemma_glyph_covered(rows: Seq<u8>, left: int, top: int, n: nat, x: int, y: int)
    requires
        on_screen(left, top),
        on_screen(left + 16, top + 16),
        on_screen(x, y),
        n <= 8,
    ensures
        covered(glyph_rects(rows, left, top, n), x, y) <==> top <= y < top + 2 * n && left <= x
            < left + 16 && dot_set(rows[(y - top) / 2], ((x - left) / 2) as u8),
    decreases n,
{
    if n > 0 {
        let k = (n - 1) as nat;
        let row_top = top + k * 2;
        lemma_glyph_covered(rows, left, top, k, x, y);
        lemma_row_covered(rows[k as int], left, row_top, 8, x, y);
        lemma_covered_add(
            glyph_rects(rows, left, top, k),
            row_rects(rows[k as int], left, row_top, 8),
            x,
            y,
        );
        if row_top <= y < row_top + 2 {
            assert((y - top) / 2 == k);
        }
    }
}

proof fn lemma_line_covered(line: Seq<char>, top: int, n: nat, x: int, y: int)
    requires
        on_screen(PADDING + n * GLYPH, top),
        on_screen(0, top + 16),
        on_screen(x, y),
        n <= line.len(),
    ensures
        covered(line_rects(line, top, n), x, y) <==> top <= y < top + 16 && PADDING <= x < PADDING
            + n * GLYPH && dot_set(
            font_rows(glyph_code(line[(x - PADDING) / (GLYPH as int)]))[(y - top) / 2],
            (((x - PADDING) % (GLYPH as int)) / 2) as u8,
        ),
    decreases n,
{
    if n > 0 {
        let k = (n - 1) as nat;
        let left = PADDING + k * GLYPH;
        let rows = font_rows(glyph_code(line[k as int]));
        lemma_line_covered(line, top, k, x, y);
        lemma_glyph_covered(rows, left, top, 8, x, y);
        lemma_covered_add(line_rects(line, top, k), glyph_rects(rows, left, top, 8), x, y);
        if left <= x < left + GLYPH {
            assert((x - PADDING) / (GLYPH as int) == k);
            assert((x - PADDING) % (GLYPH as int) == x - left);
        }
    }
}

/// A pixel of the first lines belongs to a character.
spec fn lit_before(lines: Seq<Seq<char>>, n: nat, x: int, y: int) -> bool {
    is_lit(lines, overlay_font(), x, y) && (y - PADDING) / (LINE_HEIGHT as int) < n
}

proof fn lemma_text_covered(lines: Seq<Seq<char>>, n: nat, x: int, y: int)
    requires
        widest(lines) * GLYPH + 2 * PADDING <= MAX_EXTENT,
        lines.len() * LINE_HEIGHT + 2 * PADDING <= MAX_EXTENT,
        on_screen(x, y),
        n <= lines.len(),
    ensures
        covered(text_rects(lines, n), x, y) <==> lit_before(lines, n, x, y),
    decreases n,
{
    if n > 0 {
        let k = (n - 1) as nat;
        let line = lines[k as int];
        let top = PADDING + k * LINE_HEIGHT;
        lemma_text_covered(lines, k, x, y);
        lemma_widest(lines, k as int);
        lemma_line_covered(line, top, line.len(), x, y);
        lemma_covered_add(text_rects(lines, k), line_rects(line, top, line.len()), x, y);
        if top <= y < top + LINE_HEIGHT {
            assert((y - PADDING) / (LINE_HEIGHT as int) == k);
            assert((y - PADDING) % (LINE_HEIGHT as int) == y - top);
        }
        if (y - PADDING) / (LINE_HEIGHT as int) == k && y >= PADDING {
            assert(top <= y < top + LINE_HEIGHT);
        }
        if PADDING <= x {
            assert((x - PADDING) / (GLYPH as int) < line.len() <==> x < PADDING + line.len()
                * GLYPH);
        }
    }
}

/// The overlay looks the same however it is drawn: the squares that are
/// filled on a canvas cover exactly the pixels that are lit in the picture.
pub proof fn law_drawings_agree(text: Seq<char>, x: int, y: int)
    requires
        overlay_width(text) <= MAX_EXTENT,
        overlay_height(text) <= MAX_EXTENT,
        0 <= x < overlay_width(text),
        0 <= y < overlay_height(text),
    ensures
        covered(text_rects(lines(text), lines(text).len()), x, y) <==> is_lit(
            lines(text),
            overlay_font(),
            x,
            y,
        ),
{
    lemma_text_covered(lines(text), lines(text).len(), x, y);
}

} // verus!
