//! Glyphs of the subcell font, and the integer steps of drawing an image
//! with them: which part of the image is drawn, the 2x2 pixels of each console
//! cell, and what is written into the cell.
use crate::color::rgba::RGBA;
use vstd::prelude::*;

verus! {

/// The kinds of border that a style can ask for.
#[derive(Debug, Copy, Clone, PartialEq, Eq, Structural)]
pub enum BorderType {
    Single,
    Double,
    Color,
}

/// The glyph that draws a 2x2 pixel pattern with the subcell font.
///
/// Pixels have the following flag values:
///     X 1
///     2 4
/// The flag says which pixels use the foreground color. A negative result
/// means that foreground and background swap when the glyph is drawn.
pub fn to_subcell_glyph(flag: u8) -> (g: i32)
    ensures
        g == (if flag == 1 {
            2
        } else if flag == 2 {
            7
        } else if flag == 3 {
            5
        } else if flag == 4 {
            4
        } else if flag == 5 {
            6
        } else if flag == 6 {
            -3
        } else if flag == 7 {
            -1
        } else {
            0
        }),
{
    match flag {
        0 => 0,
        1 => 2,
        2 => 7,
        3 => 5,
        4 => 4,
        5 => 6,
        6 => -3,
        7 => -1,
        _ => 0,
    }
}

/// The four pixels of one console cell in subcell drawing: top left, top
/// right, bottom left, bottom right.
pub type CellPixels = (RGBA, RGBA, RGBA, RGBA);

/// A pixel as drawn: the console's background where the pixel has the
/// transparent color.
pub open spec fn shown_pixel(p: RGBA, back: RGBA, transparent: Option<RGBA>) -> RGBA {
    if transparent == Some(p) {
        back
    } else {
        p
    }
}

/// The 2x2 pixels of one console cell: the image's pixels as drawn, where a
/// pixel right of the last column (`has_right` false) or below the last row
/// (`has_below` false) of the drawn part takes the console's background.
pub open spec fn cell_grid_spec(
    px: CellPixels,
    back: RGBA,
    transparent: Option<RGBA>,
    has_right: bool,
    has_below: bool,
) -> CellPixels {
    (
        shown_pixel(px.0, back, transparent),
        if has_right {
            shown_pixel(px.1, back, transparent)
        } else {
            back
        },
        if has_below {
            shown_pixel(px.2, back, transparent)
        } else {
            back
        },
        if has_right && has_below {
            shown_pixel(px.3, back, transparent)
        } else {
            back
        },
    )
}

/// A pixel as drawn, computed.
fn shown(p: RGBA, back: RGBA, transparent: Option<RGBA>) -> (r: RGBA)
    ensures
        r == shown_pixel(p, back, transparent),
{
    match transparent {
        Some(t) => if p == t {
            back
        } else {
            p
        },
        None => p,
    }
}

/// The 2x2 pixels of one console cell, as `cell_grid_spec` says.
pub fn cell_grid(
    px: CellPixels,
    back: RGBA,
    transparent: Option<RGBA>,
    has_right: bool,
    has_below: bool,
) -> (g: CellPixels)
    ensures
        g == cell_grid_spec(px, back, transparent, has_right, has_below),
{
    let p0 = shown(px.0, back, transparent);
    let p1 = if has_right {
        shown(px.1, back, transparent)
    } else {
        back
    };
    let p2 = if has_below {
        shown(px.2, back, transparent)
    } else {
        back
    };
    let p3 = if has_right && has_below {
        shown(px.3, back, transparent)
    } else {
        back
    };
    (p0, p1, p2, p3)
}

/// What drawing one console cell writes: its background, its foreground
/// (none when the cell is one color) and its glyph.
#[derive(Debug, Copy, Clone, PartialEq, Eq, Structural)]
pub struct CellWrite {
    pub back: RGBA,
    pub fore: Option<RGBA>,
    pub glyph: u32,
}

/// `v as u32` for an `i32`: negative values wrap around.
pub open spec fn as_u32(v: i32) -> u32 {
    if v >= 0 {
        v as u32
    } else {
        (v + 0x1_0000_0000) as u32
    }
}

/// What a cell gets from its colors and glyph: with a second color, a
/// glyph that is not negative is drawn in `front` on `back`, and a negative
/// one (the glyph's number negated) with the two colors swapped; with one
/// color, only the background and the glyph are written.
pub open spec fn cell_write_spec(back: RGBA, front: Option<RGBA>, ascii: i32) -> CellWrite {
    match front {
        Some(f) => if ascii >= 0 {
            CellWrite { back, fore: Some(f), glyph: ascii as u32 }
        } else {
            CellWrite { back: f, fore: Some(back), glyph: (-ascii) as u32 }
        },
        None => CellWrite { back, fore: None, glyph: as_u32(ascii) },
    }
}

/// What a cell gets, as `cell_write_spec` says.
pub fn cell_write(back: RGBA, front: Option<RGBA>, ascii: i32) -> (w: CellWrite)
    requires
        front is Some ==> ascii != i32::MIN,
    ensures
        w == cell_write_spec(back, front, ascii),
{
    match front {
        Some(f) => if ascii >= 0 {
            CellWrite { back, fore: Some(f), glyph: ascii as u32 }
        } else {
            CellWrite { back: f, fore: Some(back), glyph: (-ascii) as u32 }
        },
        None => {
            let g: u32 = if ascii >= 0 {
                ascii as u32
            } else {
                (ascii as i64 + 0x1_0000_0000i64) as u32
            };
            CellWrite { back, fore: None, glyph: g }
        },
    }
}

/// Division by two that rounds toward zero, as `/` does on `i32`.
pub open spec fn half_toward_zero(v: int) -> int {
    if v >= 0 {
        v / 2
    } else {
        -((-v) / 2)
    }
}

/// The part of an image that a subcell blit draws, as (first column, first
/// row, end column, end row): it starts at the source corner (`sx`, `sy`, not
/// below zero), is `w` by `h` (the whole image when not given) but no larger
/// than what is left of the image, and is cut where two pixels per console
/// cell from `dx`, `dy` would pass the console's edge.
pub open spec fn blit_extent_spec(
    width: int,
    height: int,
    con_width: int,
    con_height: int,
    dx: int,
    dy: int,
    sx: int,
    sy: int,
    w: Option<i32>,
    h: Option<i32>,
) -> (int, int, int, int) {
    let minx = if sx >= 0 { sx } else { 0 };
    let miny = if sy >= 0 { sy } else { 0 };
    let bw0 = match w {
        Some(v) => v as int,
        None => width,
    };
    let bh0 = match h {
        Some(v) => v as int,
        None => height,
    };
    let bw = if bw0 <= width - minx { bw0 } else { width - minx };
    let bh = if bh0 <= height - miny { bh0 } else { height - miny };
    let maxx = if dx + half_toward_zero(bw) <= con_width { bw } else { (con_width - dx) * 2 };
    let maxy = if dy + half_toward_zero(bh) <= con_height { bh } else { (con_height - dy) * 2 };
    (minx, miny, maxx + minx, maxy + miny)
}

/// Whether every step of `blit_extent_spec` stays within `i32`.
pub open spec fn blit_extent_fits(
    width: int,
    height: int,
    con_width: int,
    con_height: int,
    dx: int,
    dy: int,
    sx: int,
    sy: int,
    w: Option<i32>,
    h: Option<i32>,
) -> bool {
    let minx = if sx >= 0 { sx } else { 0 };
    let miny = if sy >= 0 { sy } else { 0 };
    let bw0 = match w {
        Some(v) => v as int,
        None => width,
    };
    let bh0 = match h {
        Some(v) => v as int,
        None => height,
    };
    let bw = if bw0 <= width - minx { bw0 } else { width - minx };
    let bh = if bh0 <= height - miny { bh0 } else { height - miny };
    let maxx = if dx + half_toward_zero(bw) <= con_width { bw } else { (con_width - dx) * 2 };
    let maxy = if dy + half_toward_zero(bh) <= con_height { bh } else { (con_height - dy) * 2 };
    &&& i32::MIN <= width - minx <= i32::MAX
    &&& i32::MIN <= height - miny <= i32::MAX
    &&& i32::MIN <= dx + half_toward_zero(bw) <= i32::MAX
    &&& i32::MIN <= dy + half_toward_zero(bh) <= i32::MAX
    &&& i32::MIN <= con_width - dx <= i32::MAX
    &&& i32::MIN <= con_height - dy <= i32::MAX
    &&& i32::MIN <= (con_width - dx) * 2 <= i32::MAX
    &&& i32::MIN <= (con_height - dy) * 2 <= i32::MAX
    &&& i32::MIN <= maxx + minx <= i32::MAX
    &&& i32::MIN <= maxy + miny <= i32::MAX
}

/// The part of an image that a subcell blit draws, as `blit_extent_spec`
/// says (image and console sizes in pixels and cells).
pub fn blit_extent(
    width: i32,
    height: i32,
    con_width: i32,
    con_height: i32,
    dx: i32,
    dy: i32,
    sx: i32,
    sy: i32,
    w: Option<i32>,
    h: Option<i32>,
) -> (r: (i32, i32, i32, i32))
    requires
        blit_extent_fits(
            width as int,
            height as int,
            con_width as int,
            con_height as int,
            dx as int,
            dy as int,
            sx as int,
            sy as int,
            w,
            h,
        ),
    ensures
        (r.0 as int, r.1 as int, r.2 as int, r.3 as int) == blit_extent_spec(
            width as int,
            height as int,
            con_width as int,
            con_height as int,
            dx as int,
            dy as int,
            sx as int,
            sy as int,
            w,
            h,
        ),
{
    let minx = if sx >= 0 { sx } else { 0 };
    let miny = if sy >= 0 { sy } else { 0 };
    let bw0 = match w {
        Some(v) => v,
        None => width,
    };
    let bh0 = match h {
        Some(v) => v,
        None => height,
    };
    let bw = if bw0 <= width - minx { bw0 } else { width - minx };
    let bh = if bh0 <= height - miny { bh0 } else { height - miny };
    let maxx = if dx + bw / 2 <= con_width { bw } else { (con_width - dx) * 2 };
    let maxy = if dy + bh / 2 <= con_height { bh } else { (con_height - dy) * 2 };
    (minx, miny, maxx + minx, maxy + miny)
}

} // verus!
