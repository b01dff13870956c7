//! Fonts: the cell size in a font's file name, glyph numbers, and the
//! preparation of a font image's pixels.
use crate::text::{
    chars_of, last_index_of, parse_unsigned, parse_unsigned_chars, pieces, rfind_char,
    slice_range, split_char, split_on,
};
use crate::color::rgba::RGBA;
use vstd::prelude::*;

verus! {

/// A glyph number in a font.
pub type Glyph = u32;

/// The text between the last `_` and the last `.` of a font file name.
pub open spec fn size_text(path: Seq<char>) -> Seq<char> {
    path.subrange(last_index_of(path, '_').unwrap() + 1, last_index_of(path, '.').unwrap())
}

/// Whether the size is read at all: both marks are found after the start.
pub open spec fn size_marked(path: Seq<char>) -> bool {
    last_index_of(path, '_').unwrap() > 0 && last_index_of(path, '.').unwrap() > 0
}

/// The file names on which `parse_char_size` does not panic: both `_` and `.`
/// occur, and when they come after the start, the text between them is two
/// numbers separated by `x`.
pub open spec fn char_size_ok(path: Seq<char>) -> bool {
    &&& last_index_of(path, '_') is Some
    &&& last_index_of(path, '.') is Some
    &&& size_marked(path) ==> {
        &&& last_index_of(path, '_').unwrap() + 1 <= last_index_of(path, '.').unwrap()
        &&& split_on(size_text(path), 'x').len() >= 2
        &&& parse_unsigned(split_on(size_text(path), 'x')[0], u32::MAX as nat) is Some
        &&& parse_unsigned(split_on(size_text(path), 'x')[1], u32::MAX as nat) is Some
    }
}

/// The cell size that a font file name gives (`name_8x8.png` gives 8 by 8).
pub open spec fn char_size_of(path: Seq<char>) -> (u32, u32) {
    if size_marked(path) {
        (
            parse_unsigned(split_on(size_text(path), 'x')[0], u32::MAX as nat).unwrap() as u32,
            parse_unsigned(split_on(size_text(path), 'x')[1], u32::MAX as nat).unwrap() as u32,
        )
    } else {
        (0, 0)
    }
}

/// Reads the cell size from a font file name that ends with it
/// (`_8x8.` in `name_8x8.png`).
pub fn parse_char_size(filepath: &str) -> (r: (u32, u32))
    requires
        char_size_ok(filepath@),
    ensures
        r == char_size_of(filepath@),
{
    let path = chars_of(filepath);
    let start = rfind_char(path.as_slice(), '_').unwrap();
    let end = rfind_char(path.as_slice(), '.').unwrap();
    if start > 0 && end > 0 {
        let sub = slice_range(path.as_slice(), start + 1, end);
        let charsize = split_char(sub.as_slice(), 'x');
        assert(pieces(charsize@)[0] == charsize@[0]@);
        assert(pieces(charsize@)[1] == charsize@[1]@);
        let w = parse_unsigned_chars(charsize[0].as_slice(), u32::MAX as u64).unwrap();
        let h = parse_unsigned_chars(charsize[1].as_slice(), u32::MAX as u64).unwrap();
        (w as u32, h as u32)
    } else {
        (0, 0)
    }
}

/// `parse_char_size`, or `None` for the file names on which it would panic
/// (no cell size in the name).
pub fn try_parse_char_size(filepath: &str) -> (r: Option<(u32, u32)>)
    ensures
        match r {
            Some(sz) => char_size_ok(filepath@) && sz == char_size_of(filepath@),
            None => !char_size_ok(filepath@),
        },
{
    let path = chars_of(filepath);
    let start = match rfind_char(path.as_slice(), '_') {
        Some(i) => i,
        None => {
            return None;
        },
    };
    let end = match rfind_char(path.as_slice(), '.') {
        Some(i) => i,
        None => {
            return None;
        },
    };
    if start > 0 && end > 0 {
        if start >= end {
            return None;
        }
        let sub = slice_range(path.as_slice(), start + 1, end);
        let charsize = split_char(sub.as_slice(), 'x');
        if charsize.len() < 2 {
            return None;
        }
        assert(pieces(charsize@)[0] == charsize@[0]@);
        assert(pieces(charsize@)[1] == charsize@[1]@);
        if parse_unsigned_chars(charsize[0].as_slice(), u32::MAX as u64).is_none()
            || parse_unsigned_chars(charsize[1].as_slice(), u32::MAX as u64).is_none() {
            return None;
        }
    }
    Some(parse_char_size(filepath))
}

/// The glyph number of a character: its code point.
pub fn default_to_glyph(ch: char) -> (g: Glyph)
    ensures
        g == ch as u32,
{
    ch as u32
}

/// `char::from_u32`: the character with code point `v`, if `v` is one.
#[verifier::external_body]
fn char_from_u32(v: u32) -> (r: Option<char>)
    ensures
        r matches Some(c) ==> c as u32 == v,
        r is None <==> (v > 0x10FFFF || (0xD800 <= v && v <= 0xDFFF)),
{
    char::from_u32(v)
}

/// The character of a glyph number: the character with that code point.
pub fn default_from_glyph(glyph: Glyph) -> (c: char)
    requires
        glyph <= 0x10FFFF,
        !(0xD800 <= glyph && glyph <= 0xDFFF),
    ensures
        c as u32 == glyph,
{
    char_from_u32(glyph).unwrap()
}

/// A font image pixel after preparation: pixels of the transparent color
/// become fully transparent black; in a greyscale font (transparent color
/// black) other grey pixels become white with their grey level as alpha.
pub open spec fn prepared_pixel(p: RGBA, t: RGBA, greyscale: bool) -> RGBA {
    if p.0 == t.0 && p.1 == t.1 && p.2 == t.2 {
        RGBA(0, 0, 0, 0)
    } else if greyscale && p.0 == p.1 && p.1 == p.2 {
        RGBA(255, 255, 255, p.0)
    } else {
        p
    }
}

/// Prepares a font image, given as its pixels in row order: when the first
/// pixel is opaque, its color is the transparent color (see `prepared_pixel`);
/// otherwise the image is left as it is.
pub fn process_image(pixels: &mut Vec<RGBA>)
    requires
        old(pixels)@.len() > 0,
    ensures
        final(pixels)@.len() == old(pixels)@.len(),
        old(pixels)@[0].3 != 255 ==> final(pixels)@ == old(pixels)@,
        old(pixels)@[0].3 == 255 ==> forall|i: int|
            0 <= i < old(pixels)@.len() ==> #[trigger] final(pixels)@[i] == prepared_pixel(
                old(pixels)@[i],
                old(pixels)@[0],
                old(pixels)@[0].0 == 0 && old(pixels)@[0].1 == 0 && old(pixels)@[0].2 == 0,
            ),
{
    let t = pixels[0];
    if t.3 != 255 {
        return;
    }
    let greyscale = t.0 == 0 && t.1 == 0 && t.2 == 0;
    let n = pixels.len();
    let mut i: usize = 0;
    while i < n
        invariant
            n == pixels@.len(),
            n == old(pixels)@.len(),
            t == old(pixels)@[0],
            greyscale == (t.0 == 0 && t.1 == 0 && t.2 == 0),
            i <= n,
            forall|j: int| 0 <= j < i ==> #[trigger] pixels@[j] == prepared_pixel(
                old(pixels)@[j],
                t,
                greyscale,
            ),
            forall|j: int| i <= j < n ==> #[trigger] pixels@[j] == old(pixels)@[j],
        decreases n - i,
    {
        let p = pixels[i];
        if p.0 == t.0 && p.1 == t.1 && p.2 == t.2 {
            pixels.set(i, RGBA(0, 0, 0, 0));
        } else if greyscale && p.0 == p.1 && p.1 == p.2 {
            pixels.set(i, RGBA(255, 255, 255, p.0));
        }
        i = i + 1;
    }
}

} // verus!
