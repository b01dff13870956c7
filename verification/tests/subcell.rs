use conapp::color::RGBA;
use conapp::draw::{blit_extent, cell_grid, cell_write, CellWrite};

#[test]
fn cell_grid_uses_back_for_transparent_and_edges() {
    let a = RGBA(1, 2, 3, 255);
    let b = RGBA(4, 5, 6, 255);
    let t = RGBA(9, 9, 9, 255);
    let back = RGBA(0, 0, 0, 255);
    assert_eq!(cell_grid((a, b, t, a), back, Some(t), true, true), (a, b, back, a));
    assert_eq!(cell_grid((a, b, b, b), back, None, false, true), (a, back, b, back));
    assert_eq!(cell_grid((t, b, b, b), back, Some(t), true, false), (back, b, back, back));
}

#[test]
fn cell_write_swaps_for_negative_glyphs() {
    let back = RGBA(1, 1, 1, 255);
    let front = RGBA(2, 2, 2, 255);
    assert_eq!(cell_write(back, Some(front), 5), CellWrite { back, fore: Some(front), glyph: 5 });
    assert_eq!(cell_write(back, Some(front), -3), CellWrite { back: front, fore: Some(back), glyph: 3 });
    assert_eq!(cell_write(back, None, 32), CellWrite { back, fore: None, glyph: 32 });
}

#[test]
fn blit_extent_clips_to_image_and_console() {
    // A 10x6 image drawn whole at the top left of an 80x50 console.
    assert_eq!(blit_extent(10, 6, 80, 50, 0, 0, 0, 0, None, None), (0, 0, 10, 6));
    // From (2, 1), at most 4 wide: it ends at column 6.
    assert_eq!(blit_extent(10, 6, 80, 50, 0, 0, 2, 1, Some(4), None), (2, 1, 6, 6));
    // Near the console's right edge only two cells (four pixels) fit.
    assert_eq!(blit_extent(10, 6, 80, 50, 78, 0, 0, 0, None, None), (0, 0, 4, 6));
}
