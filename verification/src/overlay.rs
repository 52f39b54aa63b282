//! Drawing the overlay text with a bitmap font of eight by eight dots, each
//! of which becomes a square of two by two pixels.
use crate::text::{byte_len, chars_of, lines, lines_of, string_of, text_len, text_views};
use crate::widgets::{rect_of, Rect};
use vstd::prelude::*;

verus! {

/// Pixels between the text and the edge of its background.
pub const PADDING: usize = 8;

/// Pixels from a character to the next.
pub const GLYPH: usize = 16;

/// Pixels from a line to the next.
pub const LINE_HEIGHT: usize = 18;

/// The rows of dots that the table `font8x8::legacy::BASIC_LEGACY` holds for
/// a code.
pub uninterp spec fn font_rows(code: usize) -> Seq<u8>;

/// Reads the table `font8x8::legacy::BASIC_LEGACY`, which has an entry of
/// eight rows for each code up to 127. The rows are named, not stated.
#[verifier::external_body]
fn glyph_rows(code: usize) -> (rows: [u8; 8])
    requires
        code < 128,
    ensures
        rows@ == font_rows(code),
{
    font8x8::legacy::BASIC_LEGACY[code]
}

/// The code that a character is drawn as; one that the font lacks is drawn
/// as the first.
pub open spec fn glyph_code(c: char) -> usize {
    if (c as u32) < 128 {
        c as usize
    } else {
        0
    }
}

/// The rows of a character.
pub fn rows_of(c: char) -> (rows: [u8; 8])
    ensures
        rows@ == font_rows(glyph_code(c)),
{
    let code: u32 = c as u32;
    if code < 128 {
        glyph_rows(code as usize)
    } else {
        glyph_rows(0)
    }
}

/// A dot of a row is set; the lowest bit is the leftmost dot.
pub open spec fn dot_set(bits: u8, dot: u8) -> bool {
    (bits >> dot) & 1u8 == 1u8
}

/// Whether a dot of a row is set.
pub fn is_dot_set(bits: u8, dot: u8) -> (r: bool)
    requires
        dot < 8,
    ensures
        r == dot_set(bits, dot),
{
    (bits >> dot) & 1u8 == 1u8
}

/// Whether a pixel of a character is set, from its rows.
pub fn glyph_pixel(rows: &[u8; 8], across: usize, down: usize) -> (r: bool)
    requires
        across < GLYPH,
        down < GLYPH,
    ensures
        r == dot_set(rows@[down as int / 2], (across / 2) as u8),
{
    is_dot_set(rows[down / 2], (across / 2) as u8)
}

/// The length of the longest line in bytes.
pub open spec fn widest(lines: Seq<Seq<char>>) -> nat
    decreases lines.len(),
{
    if lines.len() == 0 {
        0
    } else {
        let rest = widest(lines.drop_last());
        let last = byte_len(lines.last());
        if last > rest {
            last
        } else {
            rest
        }
    }
}

/// Width of the drawn text in pixels.
pub open spec fn overlay_width(text: Seq<char>) -> int {
    widest(lines(text)) * GLYPH + 2 * PADDING
}

/// Height of the drawn text in pixels.
pub open spec fn overlay_height(text: Seq<char>) -> int {
    lines(text).len() * LINE_HEIGHT + 2 * PADDING
}

/// The picture of a text can be held in memory.
pub open spec fn overlay_fits(text: Seq<char>) -> bool {
    &&& overlay_width(text) <= u32::MAX
    &&& overlay_height(text) <= u32::MAX
    &&& overlay_width(text) * overlay_height(text) * 4 <= usize::MAX
}

/// A pixel belongs to a character, where `lines` are the lines and `font`
/// gives the rows of a character.
pub open spec fn is_lit(
    lines: Seq<Seq<char>>,
    font: spec_fn(char) -> Seq<u8>,
    x: int,
    y: int,
) -> bool {
    let row = (y - PADDING) / (LINE_HEIGHT as int);
    let down = (y - PADDING) % (LINE_HEIGHT as int);
    let col = (x - PADDING) / (GLYPH as int);
    let across = (x - PADDING) % (GLYPH as int);
    &&& x >= PADDING
    &&& y >= PADDING
    &&& row < lines.len()
    &&& down < GLYPH
    &&& col < lines[row].len()
    &&& dot_set(font(lines[row][col])[down / 2], (across / 2) as u8)
}

/// The colour of a pixel: light grey on translucent black.
pub open spec fn overlay_pixel(
    lines: Seq<Seq<char>>,
    font: spec_fn(char) -> Seq<u8>,
    x: int,
    y: int,
) -> (u8, u8, u8, u8) {
    if is_lit(lines, font, x, y) {
        (220, 220, 220, 255)
    } else {
        (0, 0, 0, 160)
    }
}

/// The rows of a character in the font that the overlay uses.
pub open spec fn overlay_font() -> spec_fn(char) -> Seq<u8> {
    |c: char| font_rows(glyph_code(c))
}

/// The four bytes of a pixel.
pub open spec fn rgba(pixels: Seq<u8>, k: int) -> (u8, u8, u8, u8) {
    (pixels[4 * k], pixels[4 * k + 1], pixels[4 * k + 2], pixels[4 * k + 3])
}

fn widest_of(parts: &Vec<Vec<char>>) -> (n: usize)
    ensures
        n == widest(text_views(parts@)),
{
    let mut most: usize = 0;
    let mut n: usize = 0;
    let ghost views = text_views(parts@);
    assert(views.take(0) =~= seq![]);
    while n < parts.len()
        invariant
            n <= parts.len(),
            views == text_views(parts@),
            most == widest(views.take(n as int)),
        decreases parts.len() - n,
    {
        proof {
            assert(views.take(n + 1).drop_last() =~= views.take(n as int));
            assert(views.take(n + 1).last() == parts@[n as int]@);
        }
        let line = string_of(parts[n].as_slice());
        let len: usize = text_len(line.as_str());
        if len > most {
            most = len;
        }
        n = n + 1;
    }
    assert(views.take(n as int) =~= views);
    most
}

/// Whether the picture of a text can be held in memory.
pub fn fits_overlay(text: &str) -> (r: bool)
    ensures
        r == overlay_fits(text@),
{
    let chars = chars_of(text);
    let parts = lines_of(chars.as_slice());
    let width: u128 = widest_of(&parts) as u128 * 16 + 16;
    let height: u128 = parts.len() as u128 * 18 + 16;
    assert(text_views(parts@).len() == parts@.len());
    if width > 0xffff_ffff || height > 0xffff_ffff {
        return false;
    }
    assert(width * height * 4 <= 0xffff_ffff * 0xffff_ffff * 4) by (nonlinear_arith)
        requires
            width <= 0xffff_ffff,
            height <= 0xffff_ffff,
    ;
    assert(width * height <= 0xffff_ffff * 0xffff_ffff) by (nonlinear_arith)
        requires
            width <= 0xffff_ffff,
            height <= 0xffff_ffff,
    ;
    width * height * 4 <= usize::MAX as u128
}

fn lit(parts: &Vec<Vec<char>>, x: usize, y: usize) -> (r: bool)
    ensures
        r == is_lit(text_views(parts@), overlay_font(), x as int, y as int),
{
    if x < PADDING || y < PADDING {
        return false;
    }
    let row: usize = (y - PADDING) / LINE_HEIGHT;
    let down: usize = (y - PADDING) % LINE_HEIGHT;
    let col: usize = (x - PADDING) / GLYPH;
    let across: usize = (x - PADDING) % GLYPH;
    if row >= parts.len() || down >= GLYPH {
        return false;
    }
    assert(text_views(parts@)[row as int] == parts@[row as int]@);
    if col >= parts[row].len() {
        return false;
    }
    let c = parts[row][col];
    let rows = rows_of(c);
    assert(overlay_font()(c) == rows@);
    glyph_pixel(&rows, across, down)
}

/// Draws a text into a picture of four bytes for each pixel, row by row.
/// Returns the picture, its width and its height.
pub fn rasterize_overlay(text: &str) -> (r: (Vec<u8>, u32, u32))
    requires
        overlay_fits(text@),
    ensures
        r.1 == overlay_width(text@),
        r.2 == overlay_height(text@),
        r.0@.len() == r.1 * r.2 * 4,
        forall|k: int|
            0 <= k < r.1 * r.2 ==> #[trigger] rgba(r.0@, k) == overlay_pixel(
                lines(text@),
                overlay_font(),
                k % (r.1 as int),
                k / (r.1 as int),
            ),
{
    let chars = chars_of(text);
    let parts = lines_of(chars.as_slice());
    assert(text_views(parts@).len() == parts@.len());
    let width: usize = widest_of(&parts) * GLYPH + 2 * PADDING;
    let height: usize = parts.len() * LINE_HEIGHT + 2 * PADDING;
    let ghost w = width as int;
    proof {
        assert(width * height <= width * height * 4) by (nonlinear_arith)
            requires
                width >= 0,
                height >= 0,
        ;
    }
    let count: usize = width * height;
    let mut pixels: Vec<u8> = Vec::new();
    let mut k: usize = 0;
    while k < count
        invariant
            k <= count,
            count == width * height,
            width > 0,
            w == width,
            text_views(parts@) == lines(text@),
            pixels@.len() == 4 * k,
            forall|i: int|
                0 <= i < k ==> #[trigger] rgba(pixels@, i) == overlay_pixel(
                    lines(text@),
                    overlay_font(),
                    i % w,
                    i / w,
                ),
        decreases count - k,
    {
        let ghost before = pixels@;
        if lit(&parts, k % width, k / width) {
            pixels.push(220);
            pixels.push(220);
            pixels.push(220);
            pixels.push(255);
        } else {
            pixels.push(0);
            pixels.push(0);
            pixels.push(0);
            pixels.push(160);
        }
        proof {
            assert forall|i: int| 0 <= i < k + 1 implies #[trigger] rgba(pixels@, i)
                == overlay_pixel(lines(text@), overlay_font(), i % w, i / w) by {
                if i < k {
                    assert(rgba(pixels@, i) == rgba(before, i));
                }
            }
        }
        k = k + 1;
    }
    (pixels, width as u32, height as u32)
}

/// The text can be drawn with coordinates of a window.
pub open spec fn overlay_draws(text: Seq<char>) -> bool {
    overlay_width(text) <= i32::MAX && overlay_height(text) <= i32::MAX
}

/// Whether the text can be drawn with coordinates of a window.
pub fn draws_overlay(text: &str) -> (r: bool)
    ensures
        r == overlay_draws(text@),
{
    let chars = chars_of(text);
    let parts = lines_of(chars.as_slice());
    assert(text_views(parts@).len() == parts@.len());
    let width: u128 = widest_of(&parts) as u128 * 16 + 16;
    let height: u128 = parts.len() as u128 * 18 + 16;
    width <= 0x7fff_ffff && height <= 0x7fff_ffff
}

/// The square of a dot.
pub open spec fn dot_rect(x: int, y: int) -> Rect {
    rect_of(x as i32, y as i32, 2, 2)
}

/// The squares of the first dots of a row.
pub open spec fn row_rects(bits: u8, x: int, y: int, n: nat) -> Seq<Rect>
    decreases n,
{
    if n == 0 {
        seq![]
    } else {
        let before = row_rects(bits, x, y, (n - 1) as nat);
        if dot_set(bits, (n - 1) as u8) {
            before.push(dot_rect(x + (n - 1) * 2, y))
        } else {
            before
        }
    }
}

/// The squares of the first rows of a character.
pub open spec fn glyph_rects(rows: Seq<u8>, x: int, y: int, n: nat) -> Seq<Rect>
    decreases n,
{
    if n == 0 {
        seq![]
    } else {
        glyph_rects(rows, x, y, (n - 1) as nat) + row_rects(rows[n - 1], x, y + (n - 1) * 2, 8)
    }
}

/// The squares of the first characters of a line.
pub open spec fn line_rects(line: Seq<char>, y: int, n: nat) -> Seq<Rect>
    decreases n,
{
    if n == 0 {
        seq![]
    } else {
        line_rects(line, y, (n - 1) as nat) + glyph_rects(
            font_rows(glyph_code(line[n - 1])),
            PADDING + (n - 1) * GLYPH,
            y,
            8,
        )
    }
}

/// The squares of the first lines of a text.
pub open spec fn text_rects(lines: Seq<Seq<char>>, n: nat) -> Seq<Rect>
    decreases n,
{
    if n == 0 {
        seq![]
    } else {
        text_rects(lines, (n - 1) as nat) + line_rects(
            lines[n - 1],
            PADDING + (n - 1) * LINE_HEIGHT,
            lines[n - 1].len(),
        )
    }
}

fn push_row_rects(out: &mut Vec<Rect>, bits: u8, x: i32, y: i32)
    requires
        0 <= x,
        x + 16 <= i32::MAX,
    ensures
        final(out)@ == old(out)@ + row_rects(bits, x as int, y as int, 8),
{
    let ghost before = out@;
    let mut dot: u8 = 0;
    assert(before + row_rects(bits, x as int, y as int, 0) =~= before);
    while dot < 8
        invariant
            dot <= 8,
            0 <= x,
            x + 16 <= i32::MAX,
            out@ == before + row_rects(bits, x as int, y as int, dot as nat),
        decreases 8 - dot,
    {
        if is_dot_set(bits, dot) {
            out.push(Rect::new(x + dot as i32 * 2, y, 2, 2));
        }
        assert(out@ =~= before + row_rects(bits, x as int, y as int, (dot + 1) as nat));
        dot = dot + 1;
    }
}

fn push_glyph_rects(out: &mut Vec<Rect>, c: char, x: i32, y: i32)
    requires
        0 <= x,
        x + 16 <= i32::MAX,
        0 <= y,
        y + 16 <= i32::MAX,
    ensures
        final(out)@ == old(out)@ + glyph_rects(font_rows(glyph_code(c)), x as int, y as int, 8),
{
    let ghost before = out@;
    let rows = rows_of(c);
    let mut n: usize = 0;
    assert(before + glyph_rects(rows@, x as int, y as int, 0) =~= before);
    while n < 8
        invariant
            n <= 8,
            0 <= x,
            x + 16 <= i32::MAX,
            0 <= y,
            y + 16 <= i32::MAX,
            out@ == before + glyph_rects(rows@, x as int, y as int, n as nat),
        decreases 8 - n,
    {
        push_row_rects(out, rows[n], x, y + n as i32 * 2);
        assert(out@ =~= before + glyph_rects(rows@, x as int, y as int, (n + 1) as nat));
        n = n + 1;
    }
}

fn push_line_rects(out: &mut Vec<Rect>, line: &Vec<char>, y: i32)
    requires
        line@.len() * 16 + 16 <= i32::MAX,
        0 <= y,
        y + 16 <= i32::MAX,
    ensures
        final(out)@ == old(out)@ + line_rects(line@, y as int, line@.len()),
{
    let ghost before = out@;
    let mut n: usize = 0;
    assert(before + line_rects(line@, y as int, 0) =~= before);
    while n < line.len()
        invariant
            n <= line.len(),
            line@.len() * 16 + 16 <= i32::MAX,
            0 <= y,
            y + 16 <= i32::MAX,
            out@ == before + line_rects(line@, y as int, n as nat),
        decreases line.len() - n,
    {
        push_glyph_rects(out, line[n], 8 + n as i32 * 16, y);
        assert(out@ =~= before + line_rects(line@, y as int, (n + 1) as nat));
        n = n + 1;
    }
}

proof fn lemma_bytes_cover_chars(s: Seq<char>)
    ensures
        s.len() <= byte_len(s),
    decreases s.len(),
{
    if s.len() > 0 {
        lemma_bytes_cover_chars(s.drop_first());
    }
}

/// No line has more characters than the longest one has bytes.
pub proof fn lemma_widest(lines: Seq<Seq<char>>, i: int)
    requires
        0 <= i < lines.len(),
    ensures
        lines[i].len() <= widest(lines),
    decreases lines.len(),
{
    if i < lines.len() - 1 {
        lemma_widest(lines.drop_last(), i);
    } else {
        lemma_bytes_cover_chars(lines[i]);
    }
}

/// What to fill to draw a text: its background, and the squares of its dots
/// in the order of lines, characters, rows and dots.
pub fn overlay_rects(text: &str) -> (r: (Rect, Vec<Rect>))
    requires
        overlay_draws(text@),
    ensures
        r.0 == rect_of(0, 0, overlay_width(text@) as u32, overlay_height(text@) as u32),
        r.1@ == text_rects(lines(text@), lines(text@).len()),
{
    let chars = chars_of(text);
    let parts = lines_of(chars.as_slice());
    let ghost views = lines(text@);
    assert(views.len() == parts@.len());
    let width: usize = widest_of(&parts) * GLYPH + 2 * PADDING;
    let height: usize = parts.len() * LINE_HEIGHT + 2 * PADDING;
    let background = Rect::new(0, 0, width as u32, height as u32);
    let mut out: Vec<Rect> = Vec::new();
    let mut n: usize = 0;
    assert(out@ =~= text_rects(views, 0));
    while n < parts.len()
        invariant
            n <= parts.len(),
            views == text_views(parts@),
            widest(views) * GLYPH + 2 * PADDING <= i32::MAX,
            parts.len() * LINE_HEIGHT + 2 * PADDING <= i32::MAX,
            out@ == text_rects(views, n as nat),
        decreases parts.len() - n,
    {
        proof {
            lemma_widest(views, n as int);
            assert(views[n as int] == parts@[n as int]@);
        }
        push_line_rects(&mut out, &parts[n], 8 + n as i32 * 18);
        n = n + 1;
    }
    (background, out)
}

} // verus!
