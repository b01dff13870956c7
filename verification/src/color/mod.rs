//! Colors: the `RGBA` type, named palettes and color parsing.

pub mod named;
pub mod palette;
pub mod parse;
pub mod rgba;

pub use palette::Palette;
pub use parse::{
    get_color, get_color_opt, parse_color, parse_color_hex, parse_color_rgb, try_get_color,
    try_get_color_opt, try_parse_color, ColorParseErr,
};
pub use rgba::{black, white, RGB, RGBA};

use crate::text::{
    all_ascii, ascii_lower, ascii_lower_char, has_prefix, index_of, is_white_space, lemma_index_of,
    lemma_trim_lower_settled, split_on, trim, trim_end, trim_start,
};
use rgba::lerp_quarters_spec;
use parse::{
    get_color_ok, get_color_spec, has_char, normalize, opens_rgb, parse_color_ok, parse_color_spec, shade,
};
use vstd::prelude::*;

verus! {

/// The palette that `init_colors` sets up from `m`: every named color, then
/// `none` and `null` as the empty color.
pub open spec fn initialized(m: Map<Seq<char>, RGBA>) -> Map<Seq<char>, RGBA> {
    named::with_named_colors(m).insert("none"@, RGBA(0, 0, 0, 0)).insert("null"@, RGBA(0, 0, 0, 0))
}

/// Fills `palette` with the named colors, plus `none` and `null`.
pub fn init_colors(palette: &mut Palette)
    requires
        old(palette).wf(),
    ensures
        final(palette).wf(),
        final(palette).view() == initialized(old(palette).view()),
{
    named::add_named_colors_to_palette(palette);
    register_color(palette, "none", RGBA(0, 0, 0, 0));
    register_color(palette, "null", RGBA(0, 0, 0, 0));
}

/// Registers `color` under `name`, replacing any color of that name.
pub fn register_color(palette: &mut Palette, name: &str, color: RGBA)
    requires
        old(palette).wf(),
    ensures
        final(palette).wf(),
        final(palette).view() == old(palette).view().insert(name@, color),
{
    palette.insert_str(name, color);
}

/// The color registered under `name`, if any.
pub fn static_color(palette: &Palette, name: &str) -> (r: Option<RGBA>)
    requires
        palette.wf(),
    ensures
        r == (if palette.view().contains_key(name@) {
            Some(palette.view()[name@])
        } else {
            None
        }),
{
    let v = crate::text::chars_of(name);
    palette.get(v.as_slice())
}

/// After `register_color(name, color)`, `static_color(name)` gives `color`
/// back, and every other name keeps what it had.
pub proof fn lemma_register_then_lookup(m: Map<Seq<char>, RGBA>, name: Seq<char>, color: RGBA)
    ensures
        m.insert(name, color).contains_key(name),
        m.insert(name, color)[name] == color,
        forall|other: Seq<char>|
            other != name ==> (#[trigger] m.insert(name, color).contains_key(other) == m.contains_key(other)
                && (m.contains_key(other) ==> m.insert(name, color)[other] == m[other])),
{
}

/// `get_color` reads a color back by any name whose trimmed, lowercase form
/// it was registered under, when that form is not empty and is not hex, an
/// rgb list or a shade (`level_name`).
pub proof fn lemma_get_registered(m: Map<Seq<char>, RGBA>, name: Seq<char>, color: RGBA)
    requires
        normalize(name).len() > 0,
        !has_prefix(normalize(name), "#"@),
        !opens_rgb(normalize(name)),
        !has_char(normalize(name), '_'),
    ensures
        get_color_spec(m.insert(normalize(name), color), name) == Ok::<RGBA, ColorParseErr>(color),
{
}

/// For ASCII text, color lookup and parsing ignore case and surrounding white
/// space: a name reads exactly as its trimmed, lowercased form (with the same
/// color or the same error, and on the same inputs without panicking), and
/// blank text reads as the empty color.
pub proof fn lemma_lookup_ignores_case(m: Map<Seq<char>, RGBA>, name: Seq<char>)
    requires
        all_ascii(name),
    ensures
        get_color_spec(m, name) == get_color_spec(m, ascii_lower(trim(name))),
        get_color_ok(m, name) == get_color_ok(m, ascii_lower(trim(name))),
        parse_color_spec(name) == parse_color_spec(ascii_lower(trim(name))),
        parse_color_ok(name) == parse_color_ok(ascii_lower(trim(name))),
        trim(name).len() == 0 ==> get_color_spec(m, name) == Ok::<RGBA, ColorParseErr>(RGBA(0, 0, 0, 0)),
{
    lemma_trim_lower_settled(name);
    let n = ascii_lower(trim(name));
    assert(all_ascii(trim(n)));
    assert(normalize(name) == n);
    assert(normalize(n) == n);
}

/// After `init_colors`, `none` and `null` name the empty color.
pub proof fn lemma_init_none(m: Map<Seq<char>, RGBA>)
    ensures
        initialized(m)["none"@] == RGBA(0, 0, 0, 0),
        initialized(m)["null"@] == RGBA(0, 0, 0, 0),
{
    reveal_strlit("none");
    reveal_strlit("null");
}

/// A plain color name: not empty, and made of lowercase ASCII letters and
/// digits only.
pub open spec fn plain_name(n: Seq<char>) -> bool {
    &&& n.len() > 0
    &&& forall|i: int|
        0 <= i < n.len() ==> {
            let u = #[trigger] n[i] as u32;
            (0x61 <= u <= 0x7a) || (0x30 <= u <= 0x39)
        }
}

/// A text made of a plain level, `_` and a plain name reads as itself: it is
/// already trimmed and lowercase, and its pieces around `_` are the level and
/// the name.
proof fn lemma_shade_text(level: Seq<char>, n: Seq<char>)
    requires
        plain_name(level),
        plain_name(n),
    ensures
        normalize(level + seq!['_'] + n) == level + seq!['_'] + n,
        split_on(level + seq!['_'] + n, '_') == seq![level, n],
        index_of(level + seq!['_'] + n, '_') == level.len(),
{
    let s = level + seq!['_'] + n;
    let l = level.len() as int;
    assert forall|i: int| 0 <= i < s.len() implies (#[trigger] s[i] as u32) < 0x80 && !is_white_space(s[i])
        && ascii_lower_char(s[i]) == s[i] by {
        if i < l {
            assert(s[i] == level[i]);
        } else if i > l {
            assert(s[i] == n[i - l - 1]);
        }
    }
    assert(trim_start(s) == s);
    assert(trim_end(s) == s);
    assert(trim(s) == s);
    assert(all_ascii(s));
    assert(ascii_lower(s) =~= s);
    assert forall|j: int| 0 <= j < l implies s[j] != '_' by {
        assert(s[j] == level[j]);
    }
    lemma_index_of(s, '_', l);
    let rest = s.skip(l + 1);
    assert(rest =~= n);
    assert forall|j: int| 0 <= j < n.len() implies n[j] != '_' by {}
    lemma_index_of(n, '_', n.len() as int);
    assert(s.take(l) =~= level);
    assert(split_on(n, '_') == seq![n]);
    assert(split_on(s, '_') =~= seq![level] + split_on(rest, '_'));
    assert(seq![level] + seq![n] =~= seq![level, n]);
}

/// `level_name` for a palette color `name` and any plain level: a known
/// shade slides the color toward white or black by its quarters, an unknown
/// level is an invalid modifier.
proof fn lemma_shade_of(pal: Map<Seq<char>, RGBA>, level: Seq<char>, n: Seq<char>)
    requires
        plain_name(level),
        plain_name(n),
        pal.contains_key(n),
    ensures
        get_color_spec(pal, level + seq!['_'] + n) == match shade(level) {
            None => Err(ColorParseErr::InvalidModifier),
            Some((up, q)) => Ok(
                lerp_quarters_spec(
                    pal[n],
                    if up {
                        RGBA(255, 255, 255, 255)
                    } else {
                        RGBA(0, 0, 0, 255)
                    },
                    q,
                ),
            ),
        },
{
    let s = level + seq!['_'] + n;
    lemma_shade_text(level, n);
    reveal_strlit("#");
    reveal_strlit("(");
    reveal_strlit("rgb(");
    reveal_strlit("rgba(");
    assert(s[0] == level[0]);
    assert(!has_prefix(s, "#"@)) by {
        if has_prefix(s, "#"@) {
            assert(s.subrange(0, 1)[0] == s[0]);
        }
    }
    assert(!opens_rgb(s)) by {
        if has_prefix(s, "("@) {
            assert(s.subrange(0, 1)[0] == s[0]);
        }
        if has_prefix(s, "rgb("@) {
            assert(s.subrange(0, 4)[3] == s[3]);
            assert(s[3] as u32 != 0x28) by {
                if 3 < level.len() {
                    assert(s[3] == level[3]);
                } else if 3 > level.len() {
                    assert(s[3] == n[3 - level.len() - 1]);
                }
            }
        }
        if has_prefix(s, "rgba("@) {
            assert(s.subrange(0, 5)[4] == s[4]);
            assert(s[4] as u32 != 0x28) by {
                if 4 < level.len() {
                    assert(s[4] == level[4]);
                } else if 4 > level.len() {
                    assert(s[4] == n[4 - level.len() - 1]);
                }
            }
        }
    }
}

/// `light_` before a palette color slides it 1 quarter toward white.
proof fn lemma_shade_light(pal: Map<Seq<char>, RGBA>, name: Seq<char>)
    requires
        plain_name(name),
        pal.contains_key(name),
    ensures
        get_color_spec(pal, "light_"@ + name) == Ok::<RGBA, ColorParseErr>(
            lerp_quarters_spec(pal[name], RGBA(255, 255, 255, 255), 1),
        ),
{
    reveal_strlit("light_");
    reveal_strlit("light");
    assert(shade("light"@) == Some((true, 1u8)));
    assert(plain_name("light"@));
    assert("light_"@ + name =~= "light"@ + seq!['_'] + name);
    lemma_shade_of(pal, "light"@, name);
}

/// `lighter_` before a palette color slides it 2 quarters toward white.
proof fn lemma_shade_lighter(pal: Map<Seq<char>, RGBA>, name: Seq<char>)
    requires
        plain_name(name),
        pal.contains_key(name),
    ensures
        get_color_spec(pal, "lighter_"@ + name) == Ok::<RGBA, ColorParseErr>(
            lerp_quarters_spec(pal[name], RGBA(255, 255, 255, 255), 2),
        ),
{
    reveal_strlit("lighter_");
    reveal_strlit("light");
    reveal_strlit("lighter");
    assert("lighter"@.len() != "light"@.len());
    assert(shade("lighter"@) == Some((true, 2u8)));
    assert(plain_name("lighter"@));
    assert("lighter_"@ + name =~= "lighter"@ + seq!['_'] + name);
    lemma_shade_of(pal, "lighter"@, name);
}

/// `lightest_` before a palette color slides it 3 quarters toward white.
proof fn lemma_shade_lightest(pal: Map<Seq<char>, RGBA>, name: Seq<char>)
    requires
        plain_name(name),
        pal.contains_key(name),
    ensures
        get_color_spec(pal, "lightest_"@ + name) == Ok::<RGBA, ColorParseErr>(
            lerp_quarters_spec(pal[name], RGBA(255, 255, 255, 255), 3),
        ),
{
    reveal_strlit("lightest_");
    reveal_strlit("light");
    reveal_strlit("lighter");
    reveal_strlit("lightest");
    assert("lightest"@.len() != "light"@.len());
    assert("lightest"@.len() != "lighter"@.len());
    assert(shade("lightest"@) == Some((true, 3u8)));
    assert(plain_name("lightest"@));
    assert("lightest_"@ + name =~= "lightest"@ + seq!['_'] + name);
    lemma_shade_of(pal, "lightest"@, name);
}

/// `dark_` before a palette color slides it 1 quarter toward black.
proof fn lemma_shade_dark(pal: Map<Seq<char>, RGBA>, name: Seq<char>)
    requires
        plain_name(name),
        pal.contains_key(name),
    ensures
        get_color_spec(pal, "dark_"@ + name) == Ok::<RGBA, ColorParseErr>(
            lerp_quarters_spec(pal[name], RGBA(0, 0, 0, 255), 1),
        ),
{
    reveal_strlit("dark_");
    reveal_strlit("light");
    reveal_strlit("lighter");
    reveal_strlit("lightest");
    reveal_strlit("dark");
    assert("dark"@.len() != "light"@.len());
    assert("dark"@.len() != "lighter"@.len());
    assert("dark"@.len() != "lightest"@.len());
    assert(shade("dark"@) == Some((false, 1u8)));
    assert(plain_name("dark"@));
    assert("dark_"@ + name =~= "dark"@ + seq!['_'] + name);
    lemma_shade_of(pal, "dark"@, name);
}

/// `darker_` before a palette color slides it 2 quarters toward black.
proof fn lemma_shade_darker(pal: Map<Seq<char>, RGBA>, name: Seq<char>)
    requires
        plain_name(name),
        pal.contains_key(name),
    ensures
        get_color_spec(pal, "darker_"@ + name) == Ok::<RGBA, ColorParseErr>(
            lerp_quarters_spec(pal[name], RGBA(0, 0, 0, 255), 2),
        ),
{
    reveal_strlit("darker_");
    reveal_strlit("light");
    reveal_strlit("lighter");
    reveal_strlit("lightest");
    reveal_strlit("dark");
    reveal_strlit("darker");
    assert("darker"@.len() != "light"@.len());
    assert("darker"@.len() != "lighter"@.len());
    assert("darker"@.len() != "lightest"@.len());
    assert("darker"@.len() != "dark"@.len());
    assert(shade("darker"@) == Some((false, 2u8)));
    assert(plain_name("darker"@));
    assert("darker_"@ + name =~= "darker"@ + seq!['_'] + name);
    lemma_shade_of(pal, "darker"@, name);
}

/// `darkest_` before a palette color slides it 3 quarters toward black.
proof fn lemma_shade_darkest(pal: Map<Seq<char>, RGBA>, name: Seq<char>)
    requires
        plain_name(name),
        pal.contains_key(name),
    ensures
        get_color_spec(pal, "darkest_"@ + name) == Ok::<RGBA, ColorParseErr>(
            lerp_quarters_spec(pal[name], RGBA(0, 0, 0, 255), 3),
        ),
{
    reveal_strlit("darkest_");
    reveal_strlit("light");
    reveal_strlit("lighter");
    reveal_strlit("lightest");
    reveal_strlit("dark");
    reveal_strlit("darker");
    reveal_strlit("darkest");
    assert("darkest"@.len() != "light"@.len());
    assert("darkest"@[0] != "lighter"@[0]);
    assert("darkest"@.len() != "lightest"@.len());
    assert("darkest"@.len() != "dark"@.len());
    assert("darkest"@.len() != "darker"@.len());
    assert(shade("darkest"@) == Some((false, 3u8)));
    assert(plain_name("darkest"@));
    assert("darkest_"@ + name =~= "darkest"@ + seq!['_'] + name);
    lemma_shade_of(pal, "darkest"@, name);
}

/// The shade modifiers of a palette color `name` (made of lowercase letters
/// and digits): `light`, `lighter` and `lightest` slide it one, two and three
/// quarters toward white; `dark`, `darker` and `darkest` one, two and three
/// quarters toward black.
pub proof fn lemma_shades(pal: Map<Seq<char>, RGBA>, name: Seq<char>)
    requires
        plain_name(name),
        pal.contains_key(name),
    ensures
        get_color_spec(pal, "light_"@ + name) == Ok::<RGBA, ColorParseErr>(
            lerp_quarters_spec(pal[name], RGBA(255, 255, 255, 255), 1),
        ),
        get_color_spec(pal, "lighter_"@ + name) == Ok::<RGBA, ColorParseErr>(
            lerp_quarters_spec(pal[name], RGBA(255, 255, 255, 255), 2),
        ),
        get_color_spec(pal, "lightest_"@ + name) == Ok::<RGBA, ColorParseErr>(
            lerp_quarters_spec(pal[name], RGBA(255, 255, 255, 255), 3),
        ),
        get_color_spec(pal, "dark_"@ + name) == Ok::<RGBA, ColorParseErr>(
            lerp_quarters_spec(pal[name], RGBA(0, 0, 0, 255), 1),
        ),
        get_color_spec(pal, "darker_"@ + name) == Ok::<RGBA, ColorParseErr>(
            lerp_quarters_spec(pal[name], RGBA(0, 0, 0, 255), 2),
        ),
        get_color_spec(pal, "darkest_"@ + name) == Ok::<RGBA, ColorParseErr>(
            lerp_quarters_spec(pal[name], RGBA(0, 0, 0, 255), 3),
        ),
{
    lemma_shade_light(pal, name);
    lemma_shade_lighter(pal, name);
    lemma_shade_lightest(pal, name);
    lemma_shade_dark(pal, name);
    lemma_shade_darker(pal, name);
    lemma_shade_darkest(pal, name);
}

} // verus!
