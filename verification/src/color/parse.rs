//! Parsing colors from text: hex (`#rgb`, `#rrggbbaa`, ...), `rgb(r,g,b)`
//! lists and names looked up in a palette.
use crate::color::palette::Palette;
use crate::color::rgba::{lerp_quarters_spec, RGBA};
use crate::text::{
    all_digits, char_index_of_byte, chars_at_byte, chars_eq, chars_of, contains, contains_seq,
    all_ascii, ascii_lower, digits_value, find, first_match, has_prefix, index_of, lowercase, slice_range, split_char,
    split_on, starts_with, to_lowercase_chars, trim, trim_chars, pieces,
};
use vstd::prelude::*;

verus! {

/// Errors from parsing color strings
#[derive(Debug, Copy, Clone, PartialEq, Eq, Structural)]
pub enum ColorParseErr {
    /// Found a digit that is not a hex digit [0-9A-Fa-f]
    NonHexDigit,
    /// Found a digit that is not an ascii digit [0-9]
    NonAsciiDigit,
    /// Found text that is not valid hex length (3,4,6, or 8)
    WrongHexLen,
    /// Found text that does not have correct number of rgba components (3 or 4)
    WrongRgbLen,
    /// Unknown Color
    UnknownColor,
    /// Invalid name (uses _ incorrectly)
    InvalidName,
    /// Invalid Modifier
    InvalidModifier,
}

/// Whether `c` is an ASCII hex digit.
pub open spec fn is_hex_digit(c: char) -> bool {
    ('0' <= c && c <= '9') || ('a' <= c && c <= 'f') || ('A' <= c && c <= 'F')
}

/// The value of the hex digit `c`.
pub open spec fn hex_value(c: char) -> int {
    if '0' <= c && c <= '9' {
        c as int - '0' as int
    } else if 'a' <= c && c <= 'f' {
        c as int - 'a' as int + 10
    } else {
        c as int - 'A' as int + 10
    }
}

/// The text without one leading `#`.
pub open spec fn strip_hash(text: Seq<char>) -> Seq<char> {
    if text.len() > 0 && text[0] == '#' {
        text.drop_first()
    } else {
        text
    }
}

/// Whether `parse_color_hex` can cut `text` at its first space: the cut is
/// made at a byte offset equal to the character position of that space, so it
/// must fall on a character boundary.
pub open spec fn hex_cut_ok(text: Seq<char>) -> bool {
    let s = strip_hash(text);
    let p = index_of(s, ' ');
    p >= s.len() || chars_at_byte(s, p as int) is Some
}

/// The digits that `parse_color_hex` reads: after an optional `#`, up to the
/// first space.
pub open spec fn hex_digits(text: Seq<char>) -> Seq<char> {
    let s = strip_hash(text);
    let p = index_of(s, ' ');
    if p >= s.len() {
        s
    } else {
        s.take(chars_at_byte(s, p as int).unwrap() as int)
    }
}

/// A one-digit component (`f` is 255).
pub open spec fn hex1(c: char) -> u8 {
    (hex_value(c) * 17) as u8
}

/// A two-digit component.
pub open spec fn hex2(c: char, d: char) -> u8 {
    (hex_value(c) * 16 + hex_value(d)) as u8
}

/// The color that hex digits denote.
pub open spec fn hex_color(d: Seq<char>) -> Result<RGBA, ColorParseErr> {
    if !(forall|i: int| 0 <= i < d.len() ==> is_hex_digit(#[trigger] d[i])) {
        Err(ColorParseErr::NonHexDigit)
    } else if d.len() == 3 {
        Ok(RGBA(hex1(d[0]), hex1(d[1]), hex1(d[2]), 255))
    } else if d.len() == 4 {
        Ok(RGBA(hex1(d[0]), hex1(d[1]), hex1(d[2]), hex1(d[3])))
    } else if d.len() == 6 {
        Ok(RGBA(hex2(d[0], d[1]), hex2(d[2], d[3]), hex2(d[4], d[5]), 255))
    } else if d.len() == 8 {
        Ok(RGBA(hex2(d[0], d[1]), hex2(d[2], d[3]), hex2(d[4], d[5]), hex2(d[6], d[7])))
    } else {
        Err(ColorParseErr::WrongHexLen)
    }
}

/// What `parse_color_hex` returns for `text`.
pub open spec fn parse_hex_spec(text: Seq<char>) -> Result<RGBA, ColorParseErr> {
    hex_color(hex_digits(text))
}

fn hex_digit(c: char) -> (r: Option<u8>)
    ensures
        match r {
            Some(v) => is_hex_digit(c) && v == hex_value(c),
            None => !is_hex_digit(c),
        },
{
    if '0' <= c && c <= '9' {
        Some((c as u32 - '0' as u32) as u8)
    } else if 'a' <= c && c <= 'f' {
        Some((c as u32 - 'a' as u32 + 10) as u8)
    } else if 'A' <= c && c <= 'F' {
        Some((c as u32 - 'A' as u32 + 10) as u8)
    } else {
        None
    }
}

/// Parses RGBA from a hex string.
///
/// Text can start with or without '#' e.g. '#fff' or 'FFF'; reading stops at
/// the first space. Hex can be any of the following formats:
/// - RGB
/// - RRGGBB
/// - RGBA
/// - RRGGBBAA
/// Where R,G,B,A are all hex values [0-9A-Fa-f]
pub fn parse_color_hex(text: &str) -> (r: Result<RGBA, ColorParseErr>)
    requires
        hex_cut_ok(text@),
    ensures
        r == parse_hex_spec(text@),
{
    let v = chars_of(text);
    parse_hex_chars(v.as_slice())
}

/// `parse_color_hex` on characters.
pub fn parse_hex_chars(text: &[char]) -> (r: Result<RGBA, ColorParseErr>)
    requires
        hex_cut_ok(text@),
    ensures
        r == parse_hex_spec(text@),
{
    let start: usize = if text.len() > 0 && text[0] == '#' {
        1
    } else {
        0
    };
    let no_hash = slice_range(text, start, text.len());
    assert(no_hash@ == strip_hash(text@));
    let base: Vec<char> = match crate::text::find_char(no_hash.as_slice(), ' ') {
        None => no_hash,
        Some(p) => {
            let k = char_index_of_byte(no_hash.as_slice(), p);
            let k = k.unwrap();
            slice_range(no_hash.as_slice(), 0, k)
        },
    };
    assert(base@ == hex_digits(text@));
    let n = base.len();
    let mut digits: Vec<u8> = Vec::new();
    let mut i: usize = 0;
    while i < n
        invariant
            n == base@.len(),
            base@ == hex_digits(text@),
            i <= n,
            digits@.len() == i,
            forall|j: int| 0 <= j < i ==> is_hex_digit(#[trigger] base@[j]),
            forall|j: int| 0 <= j < i ==> digits@[j] == hex_value(#[trigger] base@[j]),
        decreases n - i,
    {
        match hex_digit(base[i]) {
            None => {
                assert(!is_hex_digit(base@[i as int]));
                return Err(ColorParseErr::NonHexDigit);
            },
            Some(d) => {
                digits.push(d);
            },
        }
        i = i + 1;
    }
    if n == 3 {
        Ok(RGBA(digits[0] * 17, digits[1] * 17, digits[2] * 17, 255))
    } else if n == 4 {
        Ok(RGBA(digits[0] * 17, digits[1] * 17, digits[2] * 17, digits[3] * 17))
    } else if n == 6 {
        Ok(
            RGBA(
                digits[0] * 16 + digits[1],
                digits[2] * 16 + digits[3],
                digits[4] * 16 + digits[5],
                255,
            ),
        )
    } else if n == 8 {
        Ok(
            RGBA(
                digits[0] * 16 + digits[1],
                digits[2] * 16 + digits[3],
                digits[4] * 16 + digits[5],
                digits[6] * 16 + digits[7],
            ),
        )
    } else {
        Err(ColorParseErr::WrongHexLen)
    }
}

/// The text after the first `(`: the cut is made at a byte offset equal to the
/// character position of the `(` plus one.
pub open spec fn rgb_start(text: Seq<char>) -> Seq<char> {
    let i = index_of(text, '(');
    if i >= text.len() {
        text
    } else {
        text.skip(chars_at_byte(text, i as int + 1).unwrap() as int)
    }
}

/// The text between the first `(` and the following `)`, as `parse_color_rgb`
/// cuts it (the `)` position is again taken as a byte offset).
pub open spec fn rgb_body(text: Seq<char>) -> Seq<char> {
    let s = rgb_start(text);
    let k = index_of(s, ')');
    if k >= s.len() {
        s
    } else {
        s.take(chars_at_byte(s, k as int).unwrap() as int)
    }
}

/// Whether both cuts of `parse_color_rgb` fall on character boundaries.
pub open spec fn rgb_cut_ok(text: Seq<char>) -> bool {
    let i = index_of(text, '(');
    &&& (i >= text.len() || chars_at_byte(text, i as int + 1) is Some)
    &&& ({
        let s = rgb_start(text);
        let k = index_of(s, ')');
        k >= s.len() || chars_at_byte(s, k as int) is Some
    })
}

/// One comma separated component: trimmed, all ASCII digits, at most 255.
pub open spec fn component_value(p: Seq<char>) -> Option<u8> {
    let t = trim(p);
    if t.len() > 0 && all_digits(t) && digits_value(t) <= 255 {
        Some(digits_value(t) as u8)
    } else {
        None
    }
}

/// The color that a list of 3 or 4 components denotes.
pub open spec fn rgb_color(parts: Seq<Seq<char>>) -> Result<RGBA, ColorParseErr> {
    if parts.len() != 3 && parts.len() != 4 {
        Err(ColorParseErr::WrongRgbLen)
    } else if exists|i: int| 0 <= i < parts.len() && #[trigger] component_value(parts[i]) is None {
        Err(ColorParseErr::NonAsciiDigit)
    } else {
        Ok(
            RGBA(
                component_value(parts[0]).unwrap(),
                component_value(parts[1]).unwrap(),
                component_value(parts[2]).unwrap(),
                if parts.len() == 4 {
                    component_value(parts[3]).unwrap()
                } else {
                    255
                },
            ),
        )
    }
}

/// What `parse_color_rgb` returns for `text`.
pub open spec fn parse_rgb_spec(text: Seq<char>) -> Result<RGBA, ColorParseErr> {
    rgb_color(split_on(rgb_body(text), ','))
}

/// One component of an rgb list.
fn component(p: &[char]) -> (r: Option<u8>)
    ensures
        r == component_value(p@),
{
    let t = trim_chars(p);
    if t.len() == 0 {
        return None;
    }
    if !crate::text::digits_only(t.as_slice(), 0) {
        assert(t@.skip(0) == t@);
        return None;
    }
    assert(t@.skip(0) == t@);
    assert('0' <= t@[0] <= '9');
    match crate::text::parse_unsigned_chars(t.as_slice(), 255) {
        None => None,
        Some(v) => Some(v as u8),
    }
}

/// Parses RGBA from comma separated R,G,B,A values
///
/// Alpha is optional, values must be separated by comma
/// The text can optionally start with 'rgb(', 'rgba(', or '('
/// If the text starts with something that has an opening paren, it can end with one.
pub fn parse_color_rgb(text: &str) -> (r: Result<RGBA, ColorParseErr>)
    requires
        rgb_cut_ok(text@),
    ensures
        r == parse_rgb_spec(text@),
{
    let v = chars_of(text);
    parse_rgb_chars(v.as_slice())
}

/// `parse_color_rgb` on characters.
pub fn parse_rgb_chars(text: &[char]) -> (r: Result<RGBA, ColorParseErr>)
    requires
        rgb_cut_ok(text@),
    ensures
        r == parse_rgb_spec(text@),
{
    let start: Vec<char> = match crate::text::find_char(text, '(') {
        None => slice_range(text, 0, text.len()),
        Some(i) => {
            let n = text.len();
            assert(i < n);
            let k = char_index_of_byte(text, i + 1).unwrap();
            slice_range(text, k, text.len())
        },
    };
    assert(start@ == rgb_start(text@)) by {
        assert(text@.subrange(0, text@.len() as int) == text@);
    }
    let body: Vec<char> = match crate::text::find_char(start.as_slice(), ')') {
        None => start,
        Some(k) => {
            let j = char_index_of_byte(start.as_slice(), k).unwrap();
            slice_range(start.as_slice(), 0, j)
        },
    };
    assert(body@ == rgb_body(text@));
    let parts = split_char(body.as_slice(), ',');
    let ghost ps = pieces(parts@);
    assert(ps == split_on(rgb_body(text@), ','));
    assert(ps.len() == parts@.len());
    if parts.len() != 3 && parts.len() != 4 {
        return Err(ColorParseErr::WrongRgbLen);
    }
    let mut nums: Vec<u8> = Vec::new();
    let mut i: usize = 0;
    while i < parts.len()
        invariant
            ps == pieces(parts@),
            ps == split_on(rgb_body(text@), ','),
            ps.len() == parts@.len(),
            parts@.len() == 3 || parts@.len() == 4,
            i <= parts@.len(),
            nums@.len() == i,
            forall|j: int| 0 <= j < i ==> component_value(#[trigger] ps[j]) == Some(nums@[j]),
        decreases parts@.len() - i,
    {
        assert(ps[i as int] == parts@[i as int]@);
        match component(parts[i].as_slice()) {
            None => {
                assert(component_value(ps[i as int]) is None);
                return Err(ColorParseErr::NonAsciiDigit);
            },
            Some(v) => {
                nums.push(v);
            },
        }
        i = i + 1;
    }
    assert(!exists|j: int| 0 <= j < ps.len() && #[trigger] component_value(ps[j]) is None);
    if nums.len() == 3 {
        Ok(RGBA(nums[0], nums[1], nums[2], 255))
    } else {
        Ok(RGBA(nums[0], nums[1], nums[2], nums[3]))
    }
}

/// A color name as `get_color` and `parse_color` read it: trimmed and lowercased.
/// On ASCII text the lowercasing is the ASCII one; on other text it is the
/// Unicode mapping of `str::to_lowercase`.
pub open spec fn normalize(name: Seq<char>) -> Seq<char> {
    if all_ascii(trim(name)) {
        ascii_lower(trim(name))
    } else {
        lowercase(trim(name))
    }
}

/// Whether the text opens an rgb list: `(`, `rgb(` or `rgba(`.
pub open spec fn opens_rgb(n: Seq<char>) -> bool {
    has_prefix(n, "("@) || has_prefix(n, "rgb("@) || has_prefix(n, "rgba("@)
}

/// Whether `c` occurs in `n`.
pub open spec fn has_char(n: Seq<char>, c: char) -> bool {
    index_of(n, c) < n.len()
}

/// What `parse_color` returns for `name`.
pub open spec fn parse_color_spec(name: Seq<char>) -> Result<RGBA, ColorParseErr> {
    let n = normalize(name);
    if has_prefix(n, "#"@) {
        parse_hex_spec(n)
    } else if opens_rgb(n) || has_char(n, ',') {
        parse_rgb_spec(n)
    } else {
        parse_hex_spec(n)
    }
}

/// The inputs on which `parse_color` does not panic.
pub open spec fn parse_color_ok(name: Seq<char>) -> bool {
    let n = normalize(name);
    if has_prefix(n, "#"@) {
        hex_cut_ok(n)
    } else if opens_rgb(n) || has_char(n, ',') {
        rgb_cut_ok(n)
    } else {
        hex_cut_ok(n)
    }
}

/// Parses RGBA from either hex or rgb or rgba values.
pub fn parse_color(name: &str) -> (r: Result<RGBA, ColorParseErr>)
    requires
        parse_color_ok(name@),
    ensures
        r == parse_color_spec(name@),
{
    let n = normalized(name);
    if starts_with(n.as_slice(), chars_of("#").as_slice()) {
        return parse_hex_chars(n.as_slice());
    }
    if opens_rgb_chars(n.as_slice()) || crate::text::find_char(n.as_slice(), ',').is_some() {
        return parse_rgb_chars(n.as_slice());
    }
    parse_hex_chars(n.as_slice())
}

/// `parse_color`, or `None` on the inputs on which it would panic.
pub fn try_parse_color(name: &str) -> (r: Option<Result<RGBA, ColorParseErr>>)
    ensures
        match r {
            Some(res) => parse_color_ok(name@) && res == parse_color_spec(name@),
            None => !parse_color_ok(name@),
        },
{
    let n = normalized(name);
    let ok = if starts_with(n.as_slice(), chars_of("#").as_slice()) {
        hex_cut_ok_chars(n.as_slice())
    } else if opens_rgb_chars(n.as_slice()) || crate::text::find_char(n.as_slice(), ',').is_some() {
        rgb_cut_ok_chars(n.as_slice())
    } else {
        hex_cut_ok_chars(n.as_slice())
    };
    if ok {
        Some(parse_color(name))
    } else {
        None
    }
}

/// `name` trimmed and lowercased.
fn normalized(name: &str) -> (n: Vec<char>)
    ensures
        n@ == normalize(name@),
{
    let v = chars_of(name);
    let t = trim_chars(v.as_slice());
    to_lowercase_chars(t.as_slice())
}

fn opens_rgb_chars(n: &[char]) -> (b: bool)
    ensures
        b == opens_rgb(n@),
{
    starts_with(n, chars_of("(").as_slice()) || starts_with(n, chars_of("rgb(").as_slice())
        || starts_with(n, chars_of("rgba(").as_slice())
}

/// Whether `parse_color_hex` can cut `text` without panicking.
pub fn hex_cut_ok_chars(text: &[char]) -> (b: bool)
    ensures
        b == hex_cut_ok(text@),
{
    let start: usize = if text.len() > 0 && text[0] == '#' {
        1
    } else {
        0
    };
    let no_hash = slice_range(text, start, text.len());
    assert(no_hash@ == strip_hash(text@));
    match crate::text::find_char(no_hash.as_slice(), ' ') {
        None => true,
        Some(p) => char_index_of_byte(no_hash.as_slice(), p).is_some(),
    }
}

/// Whether `parse_color_rgb` can cut `text` without panicking.
pub fn rgb_cut_ok_chars(text: &[char]) -> (b: bool)
    ensures
        b == rgb_cut_ok(text@),
{
    let start: Vec<char> = match crate::text::find_char(text, '(') {
        None => slice_range(text, 0, text.len()),
        Some(i) => {
            let n = text.len();
            assert(i < n);
            match char_index_of_byte(text, i + 1) {
                None => {
                    return false;
                },
                Some(k) => slice_range(text, k, text.len()),
            }
        },
    };
    assert(start@ == rgb_start(text@)) by {
        assert(text@.subrange(0, text@.len() as int) == text@);
    }
    match crate::text::find_char(start.as_slice(), ')') {
        None => true,
        Some(k) => char_index_of_byte(start.as_slice(), k).is_some(),
    }
}

/// The shade modifier that a `level_name` prefix names: towards white
/// (`light`, `lighter`, `lightest`) or towards black (`dark`, `darker`,
/// `darkest`), by one to three quarters.
pub open spec fn shade(level: Seq<char>) -> Option<(bool, u8)> {
    if level == "light"@ {
        Some((true, 1u8))
    } else if level == "lighter"@ {
        Some((true, 2u8))
    } else if level == "lightest"@ {
        Some((true, 3u8))
    } else if level == "dark"@ {
        Some((false, 1u8))
    } else if level == "darker"@ {
        Some((false, 2u8))
    } else if level == "darkest"@ {
        Some((false, 3u8))
    } else {
        None
    }
}

/// What `get_color` returns for `name`, with `pal` as the palette of named colors.
pub open spec fn get_color_spec(pal: Map<Seq<char>, RGBA>, name: Seq<char>) -> Result<
    RGBA,
    ColorParseErr,
> {
    let n = normalize(name);
    if n.len() == 0 {
        Ok(RGBA(0, 0, 0, 0))
    } else if has_prefix(n, "#"@) {
        parse_hex_spec(n)
    } else if opens_rgb(n) {
        parse_rgb_spec(n)
    } else if has_char(n, '_') {
        let parts = split_on(n, '_');
        if parts.len() < 2 {
            Err(ColorParseErr::InvalidName)
        } else if !pal.contains_key(parts[1]) {
            Err(ColorParseErr::UnknownColor)
        } else {
            match shade(parts[0]) {
                None => Err(ColorParseErr::InvalidModifier),
                Some((up, q)) => Ok(
                    lerp_quarters_spec(
                        pal[parts[1]],
                        if up {
                            RGBA(255, 255, 255, 255)
                        } else {
                            RGBA(0, 0, 0, 255)
                        },
                        q,
                    ),
                ),
            }
        }
    } else if pal.contains_key(n) {
        Ok(pal[n])
    } else {
        match parse_hex_spec(n) {
            Ok(c) => Ok(c),
            Err(_) => Err(ColorParseErr::UnknownColor),
        }
    }
}

/// The inputs on which `get_color` does not panic.
pub open spec fn get_color_ok(pal: Map<Seq<char>, RGBA>, name: Seq<char>) -> bool {
    let n = normalize(name);
    if n.len() == 0 {
        true
    } else if has_prefix(n, "#"@) {
        hex_cut_ok(n)
    } else if opens_rgb(n) {
        rgb_cut_ok(n)
    } else if has_char(n, '_') {
        true
    } else if pal.contains_key(n) {
        true
    } else {
        hex_cut_ok(n)
    }
}

/// Looks a color up by name in `palette`, or parses it.
///
/// Names are trimmed and lowercased. Empty text is the empty color; text that
/// starts with `#` is hex; text that opens with `(`, `rgb(` or `rgba(` is an rgb
/// list; `level_name` shades a palette color (light/lighter/lightest towards
/// white, dark/darker/darkest towards black); any other name is looked up, and
/// failing that read as hex.
pub fn get_color(palette: &Palette, name: &str) -> (r: Result<RGBA, ColorParseErr>)
    requires
        palette.wf(),
        get_color_ok(palette.view(), name@),
    ensures
        r == get_color_spec(palette.view(), name@),
{
    let n = normalized(name);
    if n.len() == 0 {
        return Ok(RGBA::new());
    }
    if starts_with(n.as_slice(), chars_of("#").as_slice()) {
        return parse_hex_chars(n.as_slice());
    }
    if opens_rgb_chars(n.as_slice()) {
        return parse_rgb_chars(n.as_slice());
    }
    if crate::text::find_char(n.as_slice(), '_').is_some() {
        let parts = split_char(n.as_slice(), '_');
        let ghost ps = pieces(parts@);
        assert(ps.len() == parts@.len());
        if parts.len() < 2 {
            return Err(ColorParseErr::InvalidName);
        }
        assert(ps[0] == parts@[0]@ && ps[1] == parts@[1]@);
        return match palette.get(parts[1].as_slice()) {
            None => Err(ColorParseErr::UnknownColor),
            Some(color) => {
                let level = parts[0].as_slice();
                if chars_eq(level, chars_of("light").as_slice()) {
                    Ok(RGBA::lerp_quarters(&color, &RGBA(255, 255, 255, 255), 1))
                } else if chars_eq(level, chars_of("lighter").as_slice()) {
                    Ok(RGBA::lerp_quarters(&color, &RGBA(255, 255, 255, 255), 2))
                } else if chars_eq(level, chars_of("lightest").as_slice()) {
                    Ok(RGBA::lerp_quarters(&color, &RGBA(255, 255, 255, 255), 3))
                } else if chars_eq(level, chars_of("dark").as_slice()) {
                    Ok(RGBA::lerp_quarters(&color, &RGBA(0, 0, 0, 255), 1))
                } else if chars_eq(level, chars_of("darker").as_slice()) {
                    Ok(RGBA::lerp_quarters(&color, &RGBA(0, 0, 0, 255), 2))
                } else if chars_eq(level, chars_of("darkest").as_slice()) {
                    Ok(RGBA::lerp_quarters(&color, &RGBA(0, 0, 0, 255), 3))
                } else {
                    Err(ColorParseErr::InvalidModifier)
                }
            },
        };
    }
    match palette.get(n.as_slice()) {
        Some(c) => Ok(c),
        None => match parse_hex_chars(n.as_slice()) {
            Err(_) => Err(ColorParseErr::UnknownColor),
            Ok(c) => Ok(c),
        },
    }
}

/// `get_color`, or `None` on the inputs on which it would panic.
pub fn try_get_color(palette: &Palette, name: &str) -> (r: Option<Result<RGBA, ColorParseErr>>)
    requires
        palette.wf(),
    ensures
        match r {
            Some(res) => get_color_ok(palette.view(), name@) && res == get_color_spec(
                palette.view(),
                name@,
            ),
            None => !get_color_ok(palette.view(), name@),
        },
{
    let n = normalized(name);
    let ok = if n.len() == 0 {
        true
    } else if starts_with(n.as_slice(), chars_of("#").as_slice()) {
        hex_cut_ok_chars(n.as_slice())
    } else if opens_rgb_chars(n.as_slice()) {
        rgb_cut_ok_chars(n.as_slice())
    } else if crate::text::find_char(n.as_slice(), '_').is_some() {
        true
    } else if palette.get(n.as_slice()).is_some() {
        true
    } else {
        hex_cut_ok_chars(n.as_slice())
    };
    if ok {
        Some(get_color(palette, name))
    } else {
        None
    }
}

/// `get_color` as an `Option`: `None` for any error.
pub fn get_color_opt(palette: &Palette, name: &str) -> (r: Option<RGBA>)
    requires
        palette.wf(),
        get_color_ok(palette.view(), name@),
    ensures
        r == (match get_color_spec(palette.view(), name@) {
            Ok(c) => Some(c),
            Err(_) => None,
        }),
{
    match get_color(palette, name) {
        Err(_) => None,
        Ok(c) => Some(c),
    }
}

/// `get_color_opt`, or `None` as well on the inputs on which it would panic.
pub fn try_get_color_opt(palette: &Palette, name: &str) -> (r: Option<RGBA>)
    requires
        palette.wf(),
    ensures
        r == (if get_color_ok(palette.view(), name@) {
            match get_color_spec(palette.view(), name@) {
                Ok(c) => Some(c),
                Err(_) => None,
            }
        } else {
            None
        }),
{
    match try_get_color(palette, name) {
        None => None,
        Some(_) => get_color_opt(palette, name),
    }
}

} // verus!
