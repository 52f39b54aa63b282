use stargaze::overlay::{
    draws_overlay, fits_overlay, glyph_pixel, is_dot_set, overlay_rects, rasterize_overlay,
    rows_of,
};

#[test]
fn rasterize_overlay_produces_background_and_glyph_pixels() {
    let (pixels, w, h) = rasterize_overlay("AB\nlonger line");
    assert_eq!(pixels.len(), (w * h * 4) as usize);
    assert!(w > 0 && h > 0);
    // Corner is background (translucent black).
    assert_eq!(&pixels[0..4], &[0, 0, 0, 160]);
    // Some glyph pixels exist (opaque light gray).
    assert!(
        pixels.chunks_exact(4).any(|px| px == [220, 220, 220, 255]),
        "no foreground pixels rasterized"
    );
}

#[test]
fn picture_has_room_for_the_text() {
    let (_, w, h) = rasterize_overlay("AB\nlonger line");
    assert_eq!((w, h), (11 * 16 + 16, 2 * 18 + 16));
    let (pixels, w, h) = rasterize_overlay("");
    assert_eq!((w, h), (16, 16));
    assert!(pixels.chunks_exact(4).all(|px| px == [0, 0, 0, 160]));
    // Width counts bytes.
    let (_, w, _) = rasterize_overlay("é");
    assert_eq!(w, 2 * 16 + 16);
}

#[test]
fn font_has_the_letters() {
    // The letter I of the 8x8 font.
    assert_eq!(rows_of('I'), [0x1E, 0x0C, 0x0C, 0x0C, 0x0C, 0x0C, 0x1E, 0x00]);
    assert_eq!(rows_of(' '), [0; 8]);
    assert_ne!(rows_of('A'), rows_of('B'));
    // What the font lacks is drawn as the first glyph.
    assert_eq!(rows_of('é'), rows_of('\u{0}'));
}

#[test]
fn dots_count_from_the_lowest_bit() {
    assert!(is_dot_set(0b0000_0010, 1));
    assert!(!is_dot_set(0b0000_0010, 0));
    let rows = [0b1000_0001, 0, 0, 0, 0, 0, 0, 0b0000_0001];
    assert!(glyph_pixel(&rows, 0, 0));
    assert!(glyph_pixel(&rows, 1, 1));
    assert!(!glyph_pixel(&rows, 2, 0));
    assert!(glyph_pixel(&rows, 15, 1));
    assert!(glyph_pixel(&rows, 0, 15));
    assert!(!glyph_pixel(&rows, 15, 15));
}

#[test]
fn both_drawings_agree() {
    let text = "I!\nq";
    assert!(fits_overlay(text) && draws_overlay(text));
    let (pixels, w, h) = rasterize_overlay(text);
    let (background, dots) = overlay_rects(text);
    assert_eq!((background.x(), background.y()), (0, 0));
    assert_eq!((background.width(), background.height()), (w, h));
    for y in 0..h as i32 {
        for x in 0..w as i32 {
            let at = (y as usize * w as usize + x as usize) * 4;
            let lit = pixels[at] == 220;
            assert_eq!(lit, dots.iter().any(|d| d.contains_point(x, y)), "{x},{y}");
        }
    }
}
