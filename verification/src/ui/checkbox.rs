//! The counting and checking rules of checkboxes.
use crate::text::{byte_len, utf8_len, chars_of, decimal, decimal_chars, find_char, has_prefix, index_of, matches_at, owned, string_of};
use crate::ui::element::{node_wf, str_set, ElementNode, ElementTree};
use crate::ui::Align;
use vstd::prelude::*;

verus! {

/// The number of `#` characters in `s` from position `st` on, up to the first
/// other character.
pub open spec fn hash_run(s: Seq<char>, st: int) -> nat
    decreases s.len() - st,
{
    if 0 <= st < s.len() && s[st] == '#' {
        1 + hash_run(s, st + 1)
    } else {
        0
    }
}

/// `s` with every occurrence of `pat` replaced by `rep`, scanning from the
/// left and never letting two occurrences overlap (`str::replace`, for a
/// pattern that is not empty).
pub open spec fn replace_all(s: Seq<char>, pat: Seq<char>, rep: Seq<char>) -> Seq<char>
    decreases s.len(),
{
    if s.len() == 0 {
        seq![]
    } else if pat.len() > 0 && has_prefix(s, pat) {
        rep + replace_all(s.skip(pat.len() as int), pat, rep)
    } else {
        seq![s[0]] + replace_all(s.skip(1), pat, rep)
    }
}

/// `d` with spaces in front, to width `w` (`d` unchanged when it is wider).
pub open spec fn pad_left(d: Seq<char>, w: nat) -> Seq<char> {
    if d.len() >= w {
        d
    } else {
        Seq::new((w - d.len()) as nat, |i: int| ' ') + d
    }
}

/// `n` copies of `#`.
pub open spec fn hashes(n: nat) -> Seq<char> {
    Seq::new(n, |i: int| '#')
}

/// The text of a counting checkbox: the first run of `#` in `text` is the
/// field; every occurrence of that run is replaced by `value`, right-aligned
/// in it. When `text` has no `#`, or `value` is wider than the field, the text
/// is unchanged.
pub open spec fn count_text(text: Seq<char>, value: nat) -> Seq<char> {
    let st = index_of(text, '#');
    if st >= text.len() {
        text
    } else {
        let k = hash_run(text, st as int);
        let d = decimal(value);
        if d.len() > k {
            text
        } else {
            replace_all(text, hashes(k), pad_left(d, k))
        }
    }
}

proof fn lemma_replace_step(s: Seq<char>, pat: Seq<char>, rep: Seq<char>, i: int)
    requires
        0 <= i < s.len(),
        pat.len() > 0,
    ensures
        matches_at(s, pat, i) ==> replace_all(s.skip(i), pat, rep) == rep + replace_all(
            s.skip(i + pat.len()),
            pat,
            rep,
        ),
        !matches_at(s, pat, i) ==> replace_all(s.skip(i), pat, rep) == seq![s[i]]
            + replace_all(s.skip(i + 1), pat, rep),
{
    let t = s.skip(i);
    assert(t.len() > 0);
    if matches_at(s, pat, i) {
        assert(t.subrange(0, pat.len() as int) == s.subrange(i, i + pat.len()));
        assert(t.skip(pat.len() as int) == s.skip(i + pat.len()));
    } else {
        if has_prefix(t, pat) {
            assert(t.subrange(0, pat.len() as int) == s.subrange(i, i + pat.len()));
        }
        assert(t.skip(1) == s.skip(i + 1));
    }
}

/// `v` with every occurrence of `pat` replaced by `rep` (`str::replace`).
pub fn replace_chars(v: &[char], pat: &[char], rep: &[char]) -> (r: Vec<char>)
    requires
        pat@.len() > 0,
    ensures
        r@ == replace_all(v@, pat@, rep@),
{
    let n = v.len();
    let mut out: Vec<char> = Vec::new();
    let mut i: usize = 0;
    assert(v@.skip(0) == v@);
    while i < n
        invariant
            n == v@.len(),
            i <= n,
            pat@.len() > 0,
            out@ + replace_all(v@.skip(i as int), pat@, rep@) == replace_all(v@, pat@, rep@),
        decreases n - i,
    {
        proof {
            lemma_replace_step(v@, pat@, rep@, i as int);
        }
        if crate::text::match_at(v, pat, i) {
            let ghost before = out@;
            let mut k: usize = 0;
            while k < rep.len()
                invariant
                    k <= rep@.len(),
                    out@ == before + rep@.take(k as int),
                decreases rep@.len() - k,
            {
                out.push(rep[k]);
                assert(rep@.take(k as int).push(rep@[k as int]) == rep@.take(k + 1));
                k = k + 1;
            }
            assert(rep@.take(rep@.len() as int) == rep@);
            assert(out@ + replace_all(v@.skip(i + pat@.len()), pat@, rep@) == before + (rep@
                + replace_all(v@.skip(i + pat@.len()), pat@, rep@)));
            i = i + pat.len();
        } else {
            let ghost before = out@;
            out.push(v[i]);
            assert(out@ + replace_all(v@.skip(i + 1), pat@, rep@) == before + (seq![v@[i as int]]
                + replace_all(v@.skip(i + 1), pat@, rep@)));
            i = i + 1;
        }
    }
    assert(v@.skip(n as int).len() == 0);
    assert(out@ + replace_all(v@.skip(n as int), pat@, rep@) == out@);
    out
}

proof fn lemma_hash_run_stop(s: Seq<char>, st: int, k: int)
    requires
        0 <= st <= k <= s.len(),
        forall|j: int| st <= j < k ==> s[j] == '#',
        k == s.len() || s[k] != '#',
    ensures
        hash_run(s, st) == k - st,
    decreases k - st,
{
    if st < k {
        lemma_hash_run_stop(s, st + 1, k);
    }
}

/// The text of a counting checkbox whose count glyph is `text` and whose
/// count is `value`.
pub fn get_count_text(text: &str, value: u32) -> (r: String)
    ensures
        r@ == count_text(text@, value as nat),
{
    let v = chars_of(text);
    let n = v.len();
    match find_char(v.as_slice(), '#') {
        None => owned(text),
        Some(st) => {
            let mut k: usize = st;
            while k < n && v[k] == '#'
                invariant
                    n == v@.len(),
                    st <= k <= n,
                    forall|j: int| st <= j < k ==> v@[j] == '#',
                decreases n - k,
            {
                k = k + 1;
            }
            proof {
                lemma_hash_run_stop(v@, st as int, k as int);
            }
            let run = k - st;
            let digits = decimal_chars(value as u64);
            if digits.len() > run {
                return owned(text);
            }
            let pad = run - digits.len();
            let mut pat: Vec<char> = Vec::new();
            let mut j: usize = 0;
            while j < run
                invariant
                    j <= run,
                    pat@ == hashes(j as nat),
                decreases run - j,
            {
                pat.push('#');
                assert(pat@ == hashes((j + 1) as nat));
                j = j + 1;
            }
            let mut rep: Vec<char> = Vec::new();
            let mut j: usize = 0;
            while j < pad
                invariant
                    j <= pad,
                    rep@ == Seq::new(j as nat, |i: int| ' '),
                decreases pad - j,
            {
                rep.push(' ');
                assert(rep@ == Seq::new((j + 1) as nat, |i: int| ' '));
                j = j + 1;
            }
            let mut i: usize = 0;
            let ghost spaces = rep@;
            while i < digits.len()
                invariant
                    i <= digits@.len(),
                    rep@ == spaces + digits@.take(i as int),
                decreases digits@.len() - i,
            {
                rep.push(digits[i]);
                assert(digits@.take(i as int).push(digits@[i as int]) == digits@.take(i + 1));
                i = i + 1;
            }
            assert(digits@.take(digits@.len() as int) == digits@);
            assert(pat@ == hashes(run as nat));
            let out = replace_chars(v.as_slice(), pat.as_slice(), rep.as_slice());
            string_of(out.as_slice())
        },
    }
}

/// A key press, as a counting checkbox reads it.
#[derive(PartialEq, Eq, Debug, Copy, Clone, Structural)]
pub enum CountKey {
    /// A digit key, of the main row or of the keypad, with its value.
    Digit(u8),
    /// The delete key: drops the last digit.
    Delete,
    /// Any other key: leaves the count as it is.
    Other,
}

/// Division by ten that rounds toward zero, as `/` does on `i32`.
pub open spec fn div10_toward_zero(c: int) -> int {
    if c >= 0 {
        c / 10
    } else {
        -((-c) / 10)
    }
}

/// The count after a key press: delete drops the last digit; a digit is
/// appended, and when that goes past `max` the digit alone is the new count,
/// or zero when even the digit is past `max`.
pub open spec fn count_after_key(max: int, current: int, key: CountKey) -> int {
    match key {
        CountKey::Delete => div10_toward_zero(current),
        CountKey::Digit(d) => {
            let n = current * 10 + d;
            if n > max {
                if d > max {
                    0
                } else {
                    d as int
                }
            } else {
                n
            }
        },
        CountKey::Other => current,
    }
}

/// The count of a counting checkbox after `key`, from the count `current` and
/// the largest count `max`. A result of zero unchecks the box.
pub fn count_key(max: i32, current: i32, key: CountKey) -> (r: i32)
    requires
        key matches CountKey::Digit(d) ==> d <= 9 && i32::MIN <= current * 10 && current * 10 + d <= i32::MAX,
    ensures
        r == count_after_key(max as int, current as int, key),
{
    match key {
        CountKey::Delete => current / 10,
        CountKey::Digit(d) => {
            let value = d as i32;
            let n = current * 10 + value;
            if n > max {
                if value > max {
                    0
                } else {
                    value
                }
            } else {
                n
            }
        },
        CountKey::Other => current,
    }
}

/// The text a checkbox shows, and whether it stays checked: the off glyph when
/// it is not checked; for a plain checkbox the on glyph; for a counting one
/// (`count` holds the largest count and the count) the off glyph at zero,
/// which unchecks it, the on glyph at the largest count, and the count glyph
/// filled with the count otherwise.
pub open spec fn checkbox_shows(
    checked: bool,
    count: Option<(i32, i32)>,
    on_glyph: Seq<char>,
    off_glyph: Seq<char>,
    count_glyph: Seq<char>,
) -> (Seq<char>, bool) {
    if !checked {
        (off_glyph, false)
    } else {
        match count {
            None => (on_glyph, true),
            Some((max, current)) => {
                if current == 0 {
                    (off_glyph, false)
                } else if current == max {
                    (on_glyph, true)
                } else {
                    (count_text(count_glyph, (current as u32) as nat), true)
                }
            },
        }
    }
}

/// What a checkbox shows after a change, and whether it stays checked.
pub fn checkbox_text(
    checked: bool,
    count: Option<(i32, i32)>,
    on_glyph: &str,
    off_glyph: &str,
    count_glyph: &str,
) -> (r: (String, bool))
    ensures
        (r.0@, r.1) == checkbox_shows(checked, count, on_glyph@, off_glyph@, count_glyph@),
{
    if !checked {
        return (owned(off_glyph), false);
    }
    match count {
        None => (owned(on_glyph), true),
        Some((max, current)) => {
            if current == 0 {
                (owned(off_glyph), false)
            } else if current == max {
                (owned(on_glyph), true)
            } else {
                (get_count_text(count_glyph, current as u32), true)
            }
        },
    }
}

/// A count that starts between zero and the largest count stays there after
/// any key.
pub proof fn lemma_count_stays_in_range(max: int, current: int, key: CountKey)
    requires
        0 <= current <= max,
        key matches CountKey::Digit(d) ==> d <= 9,
    ensures
        0 <= count_after_key(max, current, key) <= max,
{
}

proof fn lemma_replace_same_len(s: Seq<char>, pat: Seq<char>, rep: Seq<char>)
    requires
        pat.len() > 0,
        rep.len() == pat.len(),
    ensures
        replace_all(s, pat, rep).len() == s.len(),
    decreases s.len(),
{
    if s.len() > 0 {
        if has_prefix(s, pat) {
            lemma_replace_same_len(s.skip(pat.len() as int), pat, rep);
        } else {
            lemma_replace_same_len(s.skip(1), pat, rep);
        }
    }
}

/// The text of a counting checkbox is as long as its count glyph: the count
/// fills the field in place.
pub proof fn lemma_count_text_len(text: Seq<char>, value: nat)
    ensures
        count_text(text, value).len() == text.len(),
{
    let st = index_of(text, '#');
    if st < text.len() {
        let k = hash_run(text, st as int);
        let d = decimal(value);
        if d.len() <= k {
            assert(text[st as int] == '#') by {
                crate::text::lemma_index_of_found(text, '#');
            }
            assert(k > 0);
            lemma_replace_same_len(text, hashes(k), pad_left(d, k));
        }
    }
}

/// The value of a checked checkbox: its count, for a counting one, or just
/// that it is checked.
#[derive(PartialEq, Eq, Debug, Copy, Clone, Structural)]
pub enum CheckValue {
    Count(i32),
    Checked,
}

/// A checkbox after a click or a press of space or return: it flips; once
/// checked, a counting checkbox (`count` holds its largest count) counts its
/// largest count and a plain one is simply checked; unchecked, it has no
/// value.
pub fn checkbox_activate(checked: bool, count: Option<i32>) -> (r: (bool, Option<CheckValue>))
    ensures
        r.0 == !checked,
        r.1 == (if !checked {
            match count {
                Some(max) => Some(CheckValue::Count(max)),
                None => Some(CheckValue::Checked),
            }
        } else {
            None
        }),
{
    let now = !checked;
    let value = if now {
        match count {
            Some(max) => Some(CheckValue::Count(max)),
            None => Some(CheckValue::Checked),
        }
    } else {
        None
    };
    (now, value)
}

/// The state a counting checkbox settles in after a count key: a zero count
/// unchecks it and clears its value; any other count checks it with that
/// count.
pub fn count_state(count: i32) -> (r: (bool, Option<CheckValue>))
    ensures
        r == (if count == 0 {
            (false, None::<CheckValue>)
        } else {
            (true, Some(CheckValue::Count(count)))
        }),
{
    if count == 0 {
        (false, None)
    } else {
        (true, Some(CheckValue::Count(count)))
    }
}

/// The size a finished checkbox takes: its own size where both sides are
/// set; a zero or missing width becomes the label's width plus the glyph
/// prefix, and a zero or missing height the label's height (a zero width is
/// looked at first).
pub open spec fn checkbox_size(node: Option<(u32, u32)>, label: (u32, u32), prefix: int) -> (int, int) {
    match node {
        None => (label.0 + prefix, label.1 as int),
        Some((w, h)) => if w == 0 {
            (label.0 + prefix, h as int)
        } else if h == 0 {
            (w as int, label.1 as int)
        } else {
            (w as int, h as int)
        },
    }
}

/// The value a finished checkbox holds: none when it is not checked; when
/// checked, its count for a counting one, else just that it is checked.
pub open spec fn checkbox_value(checked: bool, count: Option<i32>) -> Option<CheckValue> {
    if !checked {
        None
    } else {
        match count {
            Some(c) => Some(CheckValue::Count(c)),
            None => Some(CheckValue::Checked),
        }
    }
}

/// Finishes checkbox `el` once its label `label` is sized. The glyph prefix
/// is the wider of the on and off glyphs (`on_width`, `off_width` columns)
/// plus `space`; the checkbox gets the size `checkbox_size` gives, and shows
/// the on glyph when it has the `checked` property and the off glyph
/// otherwise. Nothing else in the tree changes. Returns the checkbox's value
/// (`count` is its count, for a counting checkbox).
pub fn checkbox_finish(
    tree: &mut ElementTree,
    el: usize,
    label: usize,
    on: &str,
    off: &str,
    on_width: u32,
    off_width: u32,
    space: u32,
    count: Option<i32>,
) -> (r: Option<CheckValue>)
    requires
        old(tree).wf(),
        old(tree).valid(el),
        old(tree).valid(label),
        old(tree)@[label as int].size is Some,
        old(tree)@[label as int].size.unwrap().0 + (if on_width >= off_width { on_width } else { off_width }) + space
            <= u32::MAX,
    ensures
        final(tree).wf(),
        ({
            let checked = str_set(old(tree)@[el as int].props@).contains("checked"@);
            let prefix = (if on_width >= off_width { on_width } else { off_width }) + space;
            let sz = checkbox_size(old(tree)@[el as int].size, old(tree)@[label as int].size->0, prefix);
            &&& final(tree)@[el as int].text matches Some(t) && t@ == (if checked { on@ } else { off@ })
            &&& final(tree)@ == old(tree)@.update(
                el as int,
                ElementNode {
                    size: Some((sz.0 as u32, sz.1 as u32)),
                    text: final(tree)@[el as int].text,
                    ..old(tree)@[el as int]
                },
            )
            &&& r == checkbox_value(checked, count)
        }),
{
    let ghost t0 = tree@;
    let prefix = (if on_width >= off_width { on_width } else { off_width }) + space;
    let label_size = tree.size(label).unwrap();
    let size = match tree.size(el) {
        None => (label_size.0 + prefix, label_size.1),
        Some((w, h)) => if w == 0 {
            (label_size.0 + prefix, h)
        } else if h == 0 {
            (w, label_size.1)
        } else {
            (w, h)
        },
    };
    tree.set_size(el, size.0, size.1);
    let checked = tree.has_prop(el, "checked");
    if checked {
        tree.set_text(el, on);
    } else {
        tree.set_text(el, off);
    }
    proof {
        let n = tree@[el as int];
        assert(tree@ =~= t0.update(
            el as int,
            ElementNode { size: Some((size.0, size.1)), text: n.text, ..t0[el as int] },
        ));
    }
    if !checked {
        None
    } else {
        match count {
            Some(c) => Some(CheckValue::Count(c)),
            None => Some(CheckValue::Checked),
        }
    }
}

/// The width a checkbox's glyph takes before its label: the glyph text's
/// length in bytes plus `space`.
pub open spec fn checkbox_prefix(n: ElementNode, space: i32) -> int {
    utf8_len(n.text->Some_0@) + space
}

/// `p` as a `u32` (`p as u32`): negative values wrap around.
pub open spec fn wrap_u32(p: int) -> int {
    if p >= 0 {
        p
    } else {
        p + 0x1_0000_0000
    }
}

/// The label of checkbox `n` after layout: with the glyph on the right
/// (`align` is `Max`) it sits at the checkbox's position, otherwise right of
/// the glyph prefix; it is as wide as the checkbox less the prefix (not below
/// zero) and as high.
pub open spec fn checkbox_label(n: ElementNode, label: ElementNode, space: i32) -> ElementNode {
    let p = checkbox_prefix(n, space);
    let pos = n.pos->Some_0;
    let size = n.size->Some_0;
    let w = wrap_u32(p);
    ElementNode {
        pos: Some(
            if n.align == Some(Align::Max) {
                pos
            } else {
                ((pos.0 + p) as i32, pos.1)
            },
        ),
        size: Some((if size.0 >= w { (size.0 - w) as u32 } else { 0u32 }, size.1)),
        ..label
    }
}

/// Lays out checkbox `el`: places and sizes its label (its first child) as
/// `checkbox_label` says; nothing else changes.
pub fn layout_checkbox(tree: &mut ElementTree, el: usize, space: i32)
    requires
        old(tree).wf(),
        old(tree).valid(el),
        old(tree)@[el as int].text is Some,
        old(tree)@[el as int].pos is Some,
        old(tree)@[el as int].size is Some,
        old(tree)@[el as int].children@.len() > 0,
        utf8_len(old(tree)@[el as int].text->Some_0@) <= i32::MAX,
        i32::MIN <= checkbox_prefix(old(tree)@[el as int], space) <= i32::MAX,
        old(tree)@[el as int].align != Some(Align::Max) ==> i32::MIN <= old(tree)@[el as int].pos->Some_0.0
            + checkbox_prefix(old(tree)@[el as int], space) <= i32::MAX,
    ensures
        final(tree).wf(),
        final(tree)@ == old(tree)@.update(
            old(tree)@[el as int].children@[0] as int,
            checkbox_label(old(tree)@[el as int], old(tree)@[old(tree)@[el as int].children@[0] as int], space),
        ),
{
    let ghost t0 = tree@;
    proof {
        assert(node_wf(t0, el as int));
        assert(node_wf(t0, t0[el as int].children@[0] as int));
    }
    let text_len = match tree.text(el) {
        Some(t) => {
            let v = chars_of(t.as_str());
            byte_len(v.as_slice())
        },
        None => 0,
    };
    let prefix: i32 = text_len as i32 + space;
    let label = match tree.first_child(el) {
        Some(c) => c,
        None => 0,
    };
    let pos = match tree.pos(el) {
        Some(p) => p,
        None => (0, 0),
    };
    let size = match tree.size(el) {
        Some(s) => s,
        None => (0, 0),
    };
    let pw: u32 = if prefix >= 0 {
        prefix as u32
    } else {
        (prefix as i64 + 0x1_0000_0000i64) as u32
    };
    let w: u32 = if size.0 >= pw {
        size.0 - pw
    } else {
        0
    };
    let align = tree.align(el);
    let at_right = match align {
        Some(Align::Max) => true,
        _ => false,
    };
    if at_right {
        tree.set_pos(label, pos.0, pos.1);
    } else {
        tree.set_pos(label, pos.0 + prefix, pos.1);
    }
    tree.set_size(label, w, size.1);
    proof {
        assert(tree@ =~= t0.update(label as int, checkbox_label(t0[el as int], t0[label as int], space)));
    }
}

} // verus!
