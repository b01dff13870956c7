//! Style sheets: comments, rule blocks, and the styles built from them.
use crate::text::{
    chars_eq, chars_of, concat_chars, find, find_char, first_match, index_of, lemma_index_of,
    lemma_match_from, pieces, slice_range, split_char, split_on, string_of, trim, trim_chars,
};
use crate::color::palette::Palette;
use crate::color::parse::{get_color_ok, get_color_opt, get_color_spec, try_get_color};
use crate::color::rgba::RGBA;
use crate::css::selector::{parse_ok, parse_spec, result_view, scores_of, MatcherView, Selector};
use crate::draw::BorderType;
use crate::text::{parse_unsigned, parse_unsigned_chars};
use crate::ui::computed::scores_fit;
use crate::ui::sort::{
    is_permutation, lemma_sorting_step, score_of_style, sorting, stably_sorted, takes_value,
};
use crate::ui::style::{plain_style, Style, StyleView};
use vstd::prelude::*;

verus! {

/// `/*`
pub open spec fn comment_open() -> Seq<char> {
    seq!['/', '*']
}

/// `*/`
pub open spec fn comment_close() -> Seq<char> {
    seq!['*', '/']
}

/// The text without its `/* ... */` comments. The closing `*/` is searched
/// from the opening `/*` itself, and an unclosed comment runs to the end.
pub open spec fn strip_spec(t: Seq<char>) -> Seq<char>
    decreases t.len(),
{
    match first_match(t, comment_open()) {
        None => t,
        Some(i) => {
            let rest = t.skip(i);
            match first_match(rest, comment_close()) {
                None => t.take(i),
                Some(j) => {
                    proof {
                        lemma_match_from(t, comment_open(), 0);
                        lemma_match_from(rest, comment_close(), 0);
                    }
                    t.take(i) + strip_spec(rest.skip(j + 2))
                },
            }
        },
    }
}

/// Removes `/* ... */` comments from style sheet text.
pub fn strip_comments(text: &str) -> (r: String)
    ensures
        r@ == strip_spec(text@),
{
    let t = chars_of(text);
    let n = t.len();
    let mut open: Vec<char> = Vec::new();
    open.push('/');
    open.push('*');
    let mut close: Vec<char> = Vec::new();
    close.push('*');
    close.push('/');
    assert(open@ == comment_open());
    assert(close@ == comment_close());
    let mut out: Vec<char> = Vec::new();
    let mut pos: usize = 0;
    assert(t@.skip(0) == t@);
    loop
        invariant
            n == t@.len(),
            pos <= n,
            open@ == comment_open(),
            close@ == comment_close(),
            strip_spec(text@) == out@ + strip_spec(t@.skip(pos as int)),
            t@ == text@,
        decreases n - pos,
    {
        let rest = slice_range(t.as_slice(), pos, n);
        assert(rest@ == t@.skip(pos as int));
        match find(rest.as_slice(), open.as_slice()) {
            None => {
                let mut k: usize = 0;
                let ghost out0 = out@;
                while k < rest.len()
                    invariant
                        k <= rest@.len(),
                        out@ == out0 + rest@.take(k as int),
                    decreases rest@.len() - k,
                {
                    out.push(rest[k]);
                    assert(rest@.take(k as int).push(rest@[k as int]) == rest@.take(k + 1));
                    k = k + 1;
                }
                assert(rest@.take(rest@.len() as int) == rest@);
                return string_of(out.as_slice());
            },
            Some(i) => {
                proof {
                    lemma_match_from(rest@, comment_open(), 0);
                }
                let mut k: usize = 0;
                let ghost out0 = out@;
                while k < i
                    invariant
                        k <= i <= rest@.len(),
                        out@ == out0 + rest@.take(k as int),
                    decreases i - k,
                {
                    out.push(rest[k]);
                    assert(rest@.take(k as int).push(rest@[k as int]) == rest@.take(k + 1));
                    k = k + 1;
                }
                let tail = slice_range(rest.as_slice(), i, rest.len());
                match find(tail.as_slice(), close.as_slice()) {
                    None => {
                        return string_of(out.as_slice());
                    },
                    Some(j) => {
                        proof {
                            lemma_match_from(tail@, comment_close(), 0);
                            assert(tail@ == rest@.skip(i as int));
                            assert(tail@.skip(j + 2) == t@.skip(pos + i + j + 2));
                        }
                        pos = pos + i + j + 2;
                    },
                }
            },
        }
    }
}

/// A rule block: its selector text and its `key: value` pairs.
pub type RuleSet = (Seq<char>, Seq<(Seq<char>, Seq<char>)>);

/// The pair in one `;`-separated piece of a block: the trimmed piece split at
/// `:` into exactly two trimmed parts, or nothing.
pub open spec fn pair_of(p: Seq<char>) -> Seq<(Seq<char>, Seq<char>)> {
    let t = trim(p);
    if t.len() == 0 {
        seq![]
    } else {
        let kv = split_on(t, ':');
        if kv.len() == 2 {
            seq![(trim(kv[0]), trim(kv[1]))]
        } else {
            seq![]
        }
    }
}

/// The pairs of a sequence of pieces, in order.
pub open spec fn pairs_of(parts: Seq<Seq<char>>) -> Seq<(Seq<char>, Seq<char>)>
    decreases parts.len(),
{
    if parts.len() == 0 {
        seq![]
    } else {
        pairs_of(parts.drop_last()) + pair_of(parts.last())
    }
}

/// The pairs of a block body.
pub open spec fn body_pairs(body: Seq<char>) -> Seq<(Seq<char>, Seq<char>)> {
    pairs_of(split_on(body, ';'))
}

/// Position of the block with selector `k`, or the number of blocks.
pub open spec fn key_index(acc: Seq<RuleSet>, k: Seq<char>) -> nat
    decreases acc.len(),
{
    if acc.len() == 0 {
        0
    } else if acc[0].0 == k {
        0
    } else {
        1 + key_index(acc.drop_first(), k)
    }
}

/// Adds a block, replacing the pairs of an earlier block with that selector.
pub open spec fn insert_set(acc: Seq<RuleSet>, sel: Seq<char>, pairs: Seq<(Seq<char>, Seq<char>)>) -> Seq<
    RuleSet,
> {
    let i = key_index(acc, sel);
    if i < acc.len() {
        acc.update(i as int, (sel, pairs))
    } else {
        acc.push((sel, pairs))
    }
}

/// The blocks of the remaining text `text`, after the blocks `acc`.
pub open spec fn sets_spec(text: Seq<char>, acc: Seq<RuleSet>) -> Result<Seq<RuleSet>, Seq<char>>
    decreases text.len(),
{
    let loc = index_of(text, '{');
    if loc >= text.len() {
        if text.len() > 0 {
            Err("File end is not correct - "@ + text)
        } else {
            Ok(acc)
        }
    } else {
        let sel = trim(text.take(loc as int));
        let rest = text.skip(loc as int + 1);
        let l2 = index_of(rest, '}');
        if l2 >= rest.len() {
            if rest.len() > 0 {
                Err("File end is not correct - "@ + rest)
            } else {
                Ok(acc)
            }
        } else {
            let body = rest.take(l2 as int);
            if index_of(body, '{') < body.len() {
                Err("Parsing error @ selector = "@ + sel + " - found unexpected '{'"@)
            } else {
                sets_spec(rest.skip(l2 as int + 1), insert_set(acc, sel, body_pairs(body)))
            }
        }
    }
}

/// What `make_style_sets` returns for `text`: its `selector { key: value; ... }`
/// blocks, each selector once.
pub open spec fn make_sets_spec(text: Seq<char>) -> Result<Seq<RuleSet>, Seq<char>> {
    sets_spec(trim(text), seq![])
}

/// A rule block held in strings.
pub type StyleSet = (String, Vec<(String, String)>);

/// The view of one pair.
pub open spec fn pair_view(p: (String, String)) -> (Seq<char>, Seq<char>) {
    (p.0@, p.1@)
}

/// The view of one block.
pub open spec fn set_view(x: StyleSet) -> RuleSet {
    (x.0@, x.1@.map_values(|p: (String, String)| pair_view(p)))
}

/// The view of a sequence of blocks.
pub open spec fn sets_view(v: Seq<StyleSet>) -> Seq<RuleSet> {
    v.map_values(|x: StyleSet| set_view(x))
}

/// `key_index` finds the first block with selector `k`.
proof fn lemma_key_index(acc: Seq<RuleSet>, k: Seq<char>, i: int)
    requires
        0 <= i <= acc.len(),
        forall|j: int| 0 <= j < i ==> acc[j].0 != k,
        i == acc.len() || acc[i].0 == k,
    ensures
        key_index(acc, k) == i,
    decreases i,
{
    if i > 0 {
        lemma_key_index(acc.drop_first(), k, i - 1);
    }
}

/// Adds one block to `acc` as `insert_set` says.
fn insert_style_set(acc: &mut Vec<StyleSet>, sel: String, pairs: Vec<(String, String)>)
    ensures
        sets_view(final(acc)@) == insert_set(sets_view(old(acc)@), sel@, pairs@.map_values(
            |p: (String, String)| pair_view(p),
        )),
{
    let ghost av = sets_view(acc@);
    let sc = chars_of(sel.as_str());
    let mut i: usize = 0;
    while i < acc.len()
        invariant
            sc@ == sel@,
            av == sets_view(acc@),
            av == sets_view(old(acc)@),
            i <= acc@.len(),
            forall|j: int| 0 <= j < i ==> av[j].0 != sel@,
        decreases acc@.len() - i,
    {
        let kc = chars_of(acc[i].0.as_str());
        assert(av[i as int] == set_view(acc@[i as int]));
        if chars_eq(kc.as_slice(), sc.as_slice()) {
            proof {
                lemma_key_index(av, sel@, i as int);
            }
            acc.set(i, (sel, pairs));
            assert(sets_view(acc@) == av.update(i as int, set_view(acc@[i as int])));
            return;
        }
        i = i + 1;
    }
    proof {
        lemma_key_index(av, sel@, i as int);
    }
    acc.push((sel, pairs));
    assert(sets_view(acc@) == av.push(set_view(acc@[i as int])));
}

/// The pairs of a block body, in order.
fn pairs_of_body(body: &[char]) -> (r: Vec<(String, String)>)
    ensures
        r@.map_values(|p: (String, String)| pair_view(p)) == body_pairs(body@),
{
    let parts = split_char(body, ';');
    let ghost ps = pieces(parts@);
    let mut out: Vec<(String, String)> = Vec::new();
    let mut i: usize = 0;
    assert(ps.take(0) == Seq::<Seq<char>>::empty());
    while i < parts.len()
        invariant
            ps == pieces(parts@),
            ps == split_on(body@, ';'),
            i <= parts@.len(),
            out@.map_values(|p: (String, String)| pair_view(p)) == pairs_of(ps.take(i as int)),
        decreases parts@.len() - i,
    {
        let ghost before = out@.map_values(|p: (String, String)| pair_view(p));
        let t = trim_chars(parts[i].as_slice());
        assert(t@ == trim(ps[i as int]));
        if t.len() > 0 {
            let kv = split_char(t.as_slice(), ':');
            if kv.len() == 2 {
                assert(pieces(kv@)[0] == kv@[0]@ && pieces(kv@)[1] == kv@[1]@);
                let k = trim_chars(kv[0].as_slice());
                let v = trim_chars(kv[1].as_slice());
                out.push((string_of(k.as_slice()), string_of(v.as_slice())));
                assert(out@.map_values(|p: (String, String)| pair_view(p)) == before + pair_of(
                    ps[i as int],
                ));
            } else {
                assert(pair_of(ps[i as int]) == Seq::<(Seq<char>, Seq<char>)>::empty());
                assert(before + pair_of(ps[i as int]) == before);
            }
        } else {
            assert(pair_of(ps[i as int]) == Seq::<(Seq<char>, Seq<char>)>::empty());
            assert(before + pair_of(ps[i as int]) == before);
        }
        assert(ps.take(i + 1).drop_last() == ps.take(i as int));
        assert(ps.take(i + 1).last() == ps[i as int]);
        i = i + 1;
    }
    assert(ps.take(ps.len() as int) == ps);
    out
}

/// Splits style sheet text (without comments) into its rule blocks.
pub fn make_style_sets(text: &str) -> (r: Result<Vec<StyleSet>, String>)
    ensures
        match r {
            Ok(v) => make_sets_spec(text@) == Ok::<Seq<RuleSet>, Seq<char>>(sets_view(v@)),
            Err(e) => make_sets_spec(text@) == Err::<Seq<RuleSet>, Seq<char>>(e@),
        },
{
    let whole = chars_of(text);
    let mut cur = trim_chars(whole.as_slice());
    let mut acc: Vec<StyleSet> = Vec::new();
    assert(sets_view(acc@) == Seq::<RuleSet>::empty());
    loop
        invariant
            make_sets_spec(text@) == sets_spec(cur@, sets_view(acc@)),
        decreases cur@.len(),
    {
        let ghost c = cur@;
        match find_char(cur.as_slice(), '{') {
            None => {
                if cur.len() > 0 {
                    return Err(concat_chars("File end is not correct - ", cur.as_slice()));
                }
                return Ok(acc);
            },
            Some(loc) => {
                let head = slice_range(cur.as_slice(), 0, loc);
                let sel = trim_chars(head.as_slice());
                let rest = slice_range(cur.as_slice(), loc + 1, cur.len());
                assert(rest@ == c.skip(loc + 1));
                match find_char(rest.as_slice(), '}') {
                    None => {
                        if rest.len() > 0 {
                            return Err(concat_chars("File end is not correct - ", rest.as_slice()));
                        }
                        return Ok(acc);
                    },
                    Some(l2) => {
                        let body = slice_range(rest.as_slice(), 0, l2);
                        if find_char(body.as_slice(), '{').is_some() {
                            let mut msg = concat_chars("Parsing error @ selector = ", sel.as_slice());
                            let tail = chars_of(" - found unexpected '{'");
                            let full = concat_chars(msg.as_str(), tail.as_slice());
                            return Err(full);
                        }
                        let pairs = pairs_of_body(body.as_slice());
                        insert_style_set(&mut acc, string_of(sel.as_slice()), pairs);
                        cur = slice_range(rest.as_slice(), l2 + 1, rest.len());
                        assert(cur@ == c.skip(loc + 1).skip(l2 + 1));
                    },
                }
            },
        }
    }
}

/// The border that a `border` number asks for.
pub open spec fn border_of(n: nat) -> Option<BorderType> {
    if n == 0 {
        None
    } else if n == 1 {
        Some(BorderType::Single)
    } else if n == 2 {
        Some(BorderType::Double)
    } else {
        Some(BorderType::Color)
    }
}

/// The color that a value names, if any.
pub open spec fn color_value(pal: Map<Seq<char>, RGBA>, value: Seq<char>) -> Option<RGBA> {
    match get_color_spec(pal, value) {
        Ok(c) => Some(c),
        Err(_) => None,
    }
}

/// Whether a key takes a color value.
pub open spec fn is_color_key(key: Seq<char>) -> bool {
    key == "fg"@ || key == "color"@ || key == "bg"@ || key == "background-color"@ || key
        == "border-color"@ || key == "border-block-color"@ || key == "accent-color"@
}

/// `st` with `v` set under `key`; a color that does not parse, a border that is
/// not a number and an unknown key leave it as it is.
pub open spec fn apply_pair(
    pal: Map<Seq<char>, RGBA>,
    st: StyleView,
    key: Seq<char>,
    v: Seq<char>,
) -> StyleView {
    if key == "fg"@ || key == "color"@ {
        match color_value(pal, v) {
            Some(c) => StyleView { fg: Some(c), ..st },
            None => st,
        }
    } else if key == "bg"@ || key == "background-color"@ {
        match color_value(pal, v) {
            Some(c) => StyleView { bg: Some(c), ..st },
            None => st,
        }
    } else if key == "border-color"@ {
        match color_value(pal, v) {
            Some(c) => StyleView { border_fg: Some(c), ..st },
            None => st,
        }
    } else if key == "border-block-color"@ {
        match color_value(pal, v) {
            Some(c) => StyleView { border_bg: Some(c), ..st },
            None => st,
        }
    } else if key == "border"@ {
        match parse_unsigned(v, u32::MAX as nat) {
            Some(n) => StyleView { border: border_of(n), ..st },
            None => st,
        }
    } else if key == "accent-color"@ {
        match color_value(pal, v) {
            Some(c) => StyleView { accent_fg: Some(c), ..st },
            None => st,
        }
    } else {
        st
    }
}

/// `st` with all `pairs` applied in order.
pub open spec fn apply_pairs(
    pal: Map<Seq<char>, RGBA>,
    st: StyleView,
    pairs: Seq<(Seq<char>, Seq<char>)>,
) -> StyleView
    decreases pairs.len(),
{
    if pairs.len() == 0 {
        st
    } else {
        let prev = apply_pairs(pal, st, pairs.drop_last());
        apply_pair(pal, prev, pairs.last().0, pairs.last().1)
    }
}

/// Whether every color value of `pairs` can be looked up without panicking.
pub open spec fn pairs_ok(pal: Map<Seq<char>, RGBA>, pairs: Seq<(Seq<char>, Seq<char>)>) -> bool {
    forall|i: int|
        0 <= i < pairs.len() && is_color_key(#[trigger] pairs[i].0) ==> get_color_ok(
            pal,
            pairs[i].1,
        )
}

/// The styles that the blocks give, in order, up to the first selector that
/// does not parse, and that selector's error.
pub open spec fn build_styles(pal: Map<Seq<char>, RGBA>, sets: Seq<RuleSet>) -> (
    Seq<StyleView>,
    Option<Seq<char>>,
)
    decreases sets.len(),
{
    if sets.len() == 0 {
        (seq![], None)
    } else {
        match parse_spec(sets[0].0) {
            Err(e) => (seq![], Some(e)),
            Ok(ms) => {
                let rest = build_styles(pal, sets.drop_first());
                (seq![apply_pairs(pal, plain_style(ms), sets[0].1)] + rest.0, rest.1)
            },
        }
    }
}

/// Whether building styles from the blocks does not panic.
pub open spec fn sets_ok(pal: Map<Seq<char>, RGBA>, sets: Seq<RuleSet>) -> bool
    decreases sets.len(),
{
    if sets.len() == 0 {
        true
    } else {
        parse_ok(sets[0].0) && (parse_spec(sets[0].0) is Ok ==> pairs_ok(pal, sets[0].1) && sets_ok(
            pal,
            sets.drop_first(),
        ))
    }
}

/// What `load_string` adds to a sheet, and what it returns.
pub open spec fn load_spec(pal: Map<Seq<char>, RGBA>, data: Seq<char>) -> (
    Seq<StyleView>,
    Result<(), Seq<char>>,
) {
    match make_sets_spec(strip_spec(data)) {
        Err(e) => (seq![], Err(e)),
        Ok(sets) => {
            let b = build_styles(pal, sets);
            (
                b.0,
                match b.1 {
                    None => Ok(()),
                    Some(e) => Err(e),
                },
            )
        },
    }
}

/// The inputs on which `load_string` does not panic.
pub open spec fn load_ok(pal: Map<Seq<char>, RGBA>, data: Seq<char>) -> bool {
    match make_sets_spec(strip_spec(data)) {
        Err(_) => true,
        Ok(sets) => sets_ok(pal, sets),
    }
}

/// An ordered collection of styles.
pub struct StyleSheet {
    styles: Vec<Style>,
}

impl StyleSheet {
    /// The styles, viewed.
    pub closed spec fn view(&self) -> Seq<StyleView> {
        self.styles@.map_values(|s: Style| s.view())
    }

    /// An empty sheet.
    pub fn new() -> (s: StyleSheet)
        ensures
            s.view() == Seq::<StyleView>::empty(),
    {
        let s = StyleSheet { styles: Vec::new() };
        assert(s.view() == Seq::<StyleView>::empty());
        s
    }

    /// Adds a style at the end.
    pub fn insert(&mut self, style: Style)
        ensures
            final(self).view() == old(self).view().push(style.view()),
    {
        self.styles.push(style);
        assert(self.view() == old(self).view().push(style.view()));
    }

    /// The number of styles.
    pub fn len(&self) -> (n: usize)
        ensures
            n == self.view().len(),
    {
        self.styles.len()
    }

    /// The style at `i`.
    pub fn get(&self, i: usize) -> (s: &Style)
        requires
            i < self.view().len(),
        ensures
            s.view() == self.view()[i as int],
    {
        &self.styles[i]
    }

    /// Loads style rules from text, using `palette` for color names.
    ///
    /// Comments are removed and the text is split into blocks; each block's
    /// selector is parsed (the first that fails ends the load with its error,
    /// the styles before it staying added) and its `key: value` pairs set the
    /// style's colors (`fg`/`color`, `bg`/`background-color`, `border-color`,
    /// `border-block-color`, `accent-color`) and `border` (0 none, 1 single,
    /// 2 double, more color).
    pub fn load_string(&mut self, palette: &Palette, data: String) -> (r: Result<(), String>)
        requires
            palette.wf(),
            load_ok(palette.view(), data@),
        ensures
            final(self).view() == old(self).view() + load_spec(palette.view(), data@).0,
            match r {
                Ok(()) => load_spec(palette.view(), data@).1 == Ok::<(), Seq<char>>(()),
                Err(e) => load_spec(palette.view(), data@).1 == Err::<(), Seq<char>>(e@),
            },
    {
        let no_comments = strip_comments(data.as_str());
        let sets = match make_style_sets(no_comments.as_str()) {
            Err(e) => {
                assert(load_spec(palette.view(), data@).0 == Seq::<StyleView>::empty());
                assert(old(self).view() + Seq::<StyleView>::empty() == old(self).view());
                return Err(e);
            },
            Ok(v) => v,
        };
        let ghost all = sets_view(sets@);
        let ghost start = self.view();
        let mut i: usize = 0;
        assert(all.skip(0) == all);
        assert(start + build_styles(palette.view(), all).0 == self.view() + build_styles(
            palette.view(),
            all.skip(0),
        ).0);
        while i < sets.len()
            invariant
                palette.wf(),
                start == old(self).view(),
                all == sets_view(sets@),
                make_sets_spec(strip_spec(data@)) == Ok::<Seq<RuleSet>, Seq<char>>(all),
                i <= all.len(),
                sets_ok(palette.view(), all.skip(i as int)),
                build_styles(palette.view(), all).1 == build_styles(
                    palette.view(),
                    all.skip(i as int),
                ).1,
                start + build_styles(palette.view(), all).0 == self.view() + build_styles(
                    palette.view(),
                    all.skip(i as int),
                ).0,
            decreases all.len() - i,
        {
            let ghost rest = all.skip(i as int);
            assert(rest[0] == set_view(sets@[i as int]));
            assert(rest.drop_first() == all.skip(i + 1));
            let parsed = Selector::parse(sets[i].0.as_str());
            let selector = match parsed {
                Err(e) => {
                    assert(build_styles(palette.view(), rest).0 == Seq::<StyleView>::empty());
                    assert(self.view() + Seq::<StyleView>::empty() == self.view());
                    return Err(e);
                },
                Ok(sel) => sel,
            };
            let ghost before = self.view();
            let style = style_from_pairs(palette, selector, &sets[i].1);
            let ghost sv = style.view();
            self.insert(style);
            proof {
                let b = build_styles(palette.view(), rest.drop_first());
                assert(build_styles(palette.view(), rest).0 == seq![sv] + b.0);
                assert(before + (seq![sv] + b.0) == before.push(sv) + b.0);
            }
            i = i + 1;
        }
        assert(all.skip(all.len() as int) == Seq::<RuleSet>::empty());
        assert(self.view() + Seq::<StyleView>::empty() == self.view());
        Ok(())
    }
}

impl StyleSheet {
    /// `load_string`, or `None` (leaving the sheet as it is) on the inputs on
    /// which it would panic.
    pub fn try_load_string(&mut self, palette: &Palette, data: String) -> (r: Option<
        Result<(), String>,
    >)
        requires
            palette.wf(),
        ensures
            match r {
                None => !load_ok(palette.view(), data@) && final(self).view() == old(self).view(),
                Some(res) => load_ok(palette.view(), data@) && final(self).view() == old(
                    self,
                ).view() + load_spec(palette.view(), data@).0 && match res {
                    Ok(()) => load_spec(palette.view(), data@).1 == Ok::<(), Seq<char>>(()),
                    Err(e) => load_spec(palette.view(), data@).1 == Err::<(), Seq<char>>(e@),
                },
            },
    {
        if load_ok_check(palette, &data) {
            Some(self.load_string(palette, data))
        } else {
            None
        }
    }
}

/// Whether every color value of `pairs` can be looked up without panicking.
fn pairs_ok_check(palette: &Palette, pairs: &Vec<(String, String)>) -> (b: bool)
    requires
        palette.wf(),
    ensures
        b == pairs_ok(palette.view(), pairs@.map_values(|p: (String, String)| pair_view(p))),
{
    let ghost pv = pairs@.map_values(|p: (String, String)| pair_view(p));
    let mut i: usize = 0;
    while i < pairs.len()
        invariant
            palette.wf(),
            pv == pairs@.map_values(|p: (String, String)| pair_view(p)),
            i <= pairs@.len(),
            forall|j: int|
                0 <= j < i && is_color_key(#[trigger] pv[j].0) ==> get_color_ok(
                    palette.view(),
                    pv[j].1,
                ),
        decreases pairs@.len() - i,
    {
        assert(pv[i as int] == pair_view(pairs@[i as int]));
        let key = chars_of(pairs[i].0.as_str());
        let k = key.as_slice();
        let color_key = chars_eq(k, chars_of("fg").as_slice()) || chars_eq(
            k,
            chars_of("color").as_slice(),
        ) || chars_eq(k, chars_of("bg").as_slice()) || chars_eq(
            k,
            chars_of("background-color").as_slice(),
        ) || chars_eq(k, chars_of("border-color").as_slice()) || chars_eq(
            k,
            chars_of("border-block-color").as_slice(),
        ) || chars_eq(k, chars_of("accent-color").as_slice());
        assert(color_key == is_color_key(pv[i as int].0));
        if color_key && try_get_color(palette, pairs[i].1.as_str()).is_none() {
            return false;
        }
        i = i + 1;
    }
    true
}

/// Whether `load_ok` holds, computed.
fn load_ok_check(palette: &Palette, data: &String) -> (b: bool)
    requires
        palette.wf(),
    ensures
        b == load_ok(palette.view(), data@),
{
    let no_comments = strip_comments(data.as_str());
    let sets = match make_style_sets(no_comments.as_str()) {
        Err(_) => {
            return true;
        },
        Ok(v) => v,
    };
    let ghost all = sets_view(sets@);
    let mut i: usize = 0;
    assert(all.skip(0) == all);
    while i < sets.len()
        invariant
            palette.wf(),
            all == sets_view(sets@),
            make_sets_spec(strip_spec(data@)) == Ok::<Seq<RuleSet>, Seq<char>>(all),
            i <= all.len(),
            sets_ok(palette.view(), all) == sets_ok(palette.view(), all.skip(i as int)),
        decreases all.len() - i,
    {
        let ghost rest = all.skip(i as int);
        assert(rest[0] == set_view(sets@[i as int]));
        assert(rest.drop_first() == all.skip(i + 1));
        match Selector::try_parse(sets[i].0.as_str()) {
            None => {
                return false;
            },
            Some(Err(_)) => {
                return true;
            },
            Some(Ok(_)) => {
                if !pairs_ok_check(palette, &sets[i].1) {
                    return false;
                }
            },
        }
        i = i + 1;
    }
    assert(all.skip(all.len() as int) == Seq::<RuleSet>::empty());
    true
}

/// A style for `selector` with the pairs applied.
fn style_from_pairs(palette: &Palette, selector: Selector, pairs: &Vec<(String, String)>) -> (s: Style)
    requires
        palette.wf(),
        pairs_ok(palette.view(), pairs@.map_values(|p: (String, String)| pair_view(p))),
    ensures
        s.view() == apply_pairs(
            palette.view(),
            plain_style(selector.view()),
            pairs@.map_values(|p: (String, String)| pair_view(p)),
        ),
{
    let ghost pv = pairs@.map_values(|p: (String, String)| pair_view(p));
    let ghost sv = selector.view();
    let mut style = Style::new(selector);
    let mut i: usize = 0;
    assert(pv.take(0) == Seq::<(Seq<char>, Seq<char>)>::empty());
    while i < pairs.len()
        invariant
            palette.wf(),
            pv == pairs@.map_values(|p: (String, String)| pair_view(p)),
            pairs_ok(palette.view(), pv),
            i <= pairs@.len(),
            style.view() == apply_pairs(palette.view(), plain_style(sv), pv.take(i as int)),
        decreases pairs@.len() - i,
    {
        let key = chars_of(pairs[i].0.as_str());
        let value = pairs[i].1.as_str();
        assert(pv[i as int] == pair_view(pairs@[i as int]));
        assert(pv.take(i + 1).drop_last() == pv.take(i as int));
        assert(pv.take(i + 1).last() == pv[i as int]);
        let k = key.as_slice();
        assert(key@ == pv[i as int].0 && value@ == pv[i as int].1);
        assert(is_color_key(pv[i as int].0) ==> get_color_ok(palette.view(), pv[i as int].1));
        if chars_eq(k, chars_of("fg").as_slice()) || chars_eq(k, chars_of("color").as_slice()) {
            if let Some(c) = get_color_opt(palette, value) {
                style.set_fg(c);
            }
        } else if chars_eq(k, chars_of("bg").as_slice()) || chars_eq(
            k,
            chars_of("background-color").as_slice(),
        ) {
            if let Some(c) = get_color_opt(palette, value) {
                style.set_bg(c);
            }
        } else if chars_eq(k, chars_of("border-color").as_slice()) {
            if let Some(c) = get_color_opt(palette, value) {
                style.set_border_fg(c);
            }
        } else if chars_eq(k, chars_of("border-block-color").as_slice()) {
            if let Some(c) = get_color_opt(palette, value) {
                style.set_border_bg(c);
            }
        } else if chars_eq(k, chars_of("border").as_slice()) {
            let vc = chars_of(value);
            match parse_unsigned_chars(vc.as_slice(), u32::MAX as u64) {
                None => {},
                Some(n) => {
                    let b = if n == 0 {
                        None
                    } else if n == 1 {
                        Some(BorderType::Single)
                    } else if n == 2 {
                        Some(BorderType::Double)
                    } else {
                        Some(BorderType::Color)
                    };
                    style.set_border(b);
                },
            }
        } else if chars_eq(k, chars_of("accent-color").as_slice()) {
            if let Some(c) = get_color_opt(palette, value) {
                style.set_accent_fg(c);
            }
        }
        i = i + 1;
    }
    assert(pv.take(pv.len() as int) == pv);
    style
}

impl StyleSheet {
    /// Orders the styles by ascending score; styles of equal score keep their
    /// order.
    pub fn finish(&mut self)
        requires
            scores_fit(old(self).view()),
        ensures
            stably_sorted(final(self).view(), old(self).view()),
    {
        let ghost s = self.view();
        let ghost mut p: Seq<int> = Seq::new(s.len(), |k: int| k);
        let n = self.styles.len();
        proof {
            assert forall|v: int| 0 <= v < s.len() implies #[trigger] takes_value(p, v) by {
                assert(p[v] == v);
            }
            assert(sorting(self.view(), s, p, 0));
        }
        let mut i: usize = 0;
        while i < n
            invariant
                n == s.len(),
                n == self.styles@.len(),
                scores_fit(s),
                sorting(self.view(), s, p, i as int),
            decreases n - i,
        {
            let ghost v = self.view();
            proof {
                assert(v[i as int] == s[p[i as int]]);
                assert(scores_of(s[p[i as int]].selector) <= u32::MAX);
            }
            let x = self.styles.remove(i);
            assert(self.view() =~= v.remove(i as int));
            let sx = x.score();
            let mut j: usize = 0;
            while j < i
                invariant
                    j <= i < n,
                    n == s.len(),
                    scores_fit(s),
                    sorting(v, s, p, i as int),
                    self.view() == v.remove(i as int),
                    self.styles@.len() == n - 1,
                    sx == score_of_style(v[i as int]),
                    forall|k: int| 0 <= k < j ==> score_of_style(#[trigger] v[k]) <= score_of_style(v[i as int]),
                ensures
                    j <= i,
                    j < i ==> score_of_style(v[j as int]) > score_of_style(v[i as int]),
                    forall|k: int| 0 <= k < j ==> score_of_style(#[trigger] v[k]) <= score_of_style(v[i as int]),
                decreases i - j,
            {
                proof {
                    assert(v[j as int] == s[p[j as int]]);
                    assert(scores_of(s[p[j as int]].selector) <= u32::MAX);
                    assert(self.view()[j as int] == v[j as int]);
                }
                let sj = self.styles[j].score();
                if sj > sx {
                    break;
                }
                j = j + 1;
            }
            proof {
                assert forall|k: int| j <= k < i implies score_of_style(#[trigger] v[k]) > score_of_style(
                    v[i as int],
                ) by {
                    assert(score_of_style(v[j as int]) <= score_of_style(v[k]));
                }
            }
            self.styles.insert(j, x);
            proof {
                assert(self.view() =~= v.remove(i as int).insert(j as int, v[i as int]));
                lemma_sorting_step(v, s, p, i as int, j as int);
                p = p.remove(i as int).insert(j as int, p[i as int]);
            }
            i = i + 1;
        }
        proof {
            let v = self.view();
            assert forall|k: int| 0 <= k < v.len() implies #[trigger] v[k] == s[p[k]] by {}
            assert(stably_sorted(v, s));
        }
    }
}

/// Each style key sets its own value and nothing else: `fg` and `color` the
/// foreground, `bg` and `background-color` the background, `border-color`
/// the border foreground, `border-block-color` the border background and
/// `accent-color` the accent foreground, each to the color the value names.
pub proof fn lemma_color_keys(pal: Map<Seq<char>, RGBA>, st: StyleView, v: Seq<char>, c: RGBA)
    requires
        color_value(pal, v) == Some(c),
    ensures
        apply_pair(pal, st, "fg"@, v) == (StyleView { fg: Some(c), ..st }),
        apply_pair(pal, st, "color"@, v) == (StyleView { fg: Some(c), ..st }),
        apply_pair(pal, st, "bg"@, v) == (StyleView { bg: Some(c), ..st }),
        apply_pair(pal, st, "background-color"@, v) == (StyleView { bg: Some(c), ..st }),
        apply_pair(pal, st, "border-color"@, v) == (StyleView { border_fg: Some(c), ..st }),
        apply_pair(pal, st, "border-block-color"@, v) == (StyleView { border_bg: Some(c), ..st }),
        apply_pair(pal, st, "accent-color"@, v) == (StyleView { accent_fg: Some(c), ..st }),
{
    reveal_strlit("fg");
    reveal_strlit("color");
    reveal_strlit("bg");
    reveal_strlit("background-color");
    reveal_strlit("border-color");
    reveal_strlit("border-block-color");
    reveal_strlit("border");
    reveal_strlit("accent-color");
    assert("color"@.len() != "fg"@.len());
    assert("bg"@[0] != "fg"@[0]);
    assert("bg"@.len() != "color"@.len());
    assert("background-color"@.len() != "fg"@.len());
    assert("background-color"@.len() != "color"@.len());
    assert("background-color"@.len() != "bg"@.len());
    assert("border-color"@.len() != "fg"@.len());
    assert("border-color"@.len() != "color"@.len());
    assert("border-color"@.len() != "bg"@.len());
    assert("border-block-color"@.len() != "fg"@.len());
    assert("border-block-color"@.len() != "color"@.len());
    assert("border-block-color"@.len() != "bg"@.len());
    assert("border-block-color"@.len() != "background-color"@.len());
    assert("border-block-color"@.len() != "border-color"@.len());
    assert("accent-color"@.len() != "fg"@.len());
    assert("accent-color"@.len() != "color"@.len());
    assert("accent-color"@.len() != "bg"@.len());
    assert("accent-color"@.len() != "background-color"@.len());
    assert("accent-color"@[0] != "border-color"@[0]);
    assert("accent-color"@.len() != "border-block-color"@.len());
    assert("accent-color"@.len() != "border"@.len());
}

/// A color key whose value names no color leaves the style as it is.
pub proof fn lemma_color_key_unknown(pal: Map<Seq<char>, RGBA>, st: StyleView, key: Seq<char>, v: Seq<char>)
    requires
        is_color_key(key),
        color_value(pal, v) is None,
    ensures
        apply_pair(pal, st, key, v) == st,
{
    reveal_strlit("border");
    reveal_strlit("fg");
    reveal_strlit("color");
    reveal_strlit("bg");
    reveal_strlit("background-color");
    reveal_strlit("border-color");
    reveal_strlit("border-block-color");
    reveal_strlit("accent-color");
    assert("border"@.len() != "fg"@.len());
    assert("border"@.len() != "color"@.len());
    assert("border"@.len() != "bg"@.len());
    assert("border"@.len() != "background-color"@.len());
    assert("border"@.len() != "border-color"@.len());
    assert("border"@.len() != "border-block-color"@.len());
    assert("border"@.len() != "accent-color"@.len());
    assert(key != "border"@);
}

/// The `border` key sets the border by its number: 0 none, 1 single, 2
/// double, anything larger a colored border; a value that is not a number
/// leaves the style as it is.
pub proof fn lemma_border_key(pal: Map<Seq<char>, RGBA>, st: StyleView, v: Seq<char>)
    ensures
        parse_unsigned(v, u32::MAX as nat) == Some(0nat) ==> apply_pair(pal, st, "border"@, v) == (StyleView {
            border: None,
            ..st
        }),
        parse_unsigned(v, u32::MAX as nat) == Some(1nat) ==> apply_pair(pal, st, "border"@, v) == (StyleView {
            border: Some(BorderType::Single),
            ..st
        }),
        parse_unsigned(v, u32::MAX as nat) == Some(2nat) ==> apply_pair(pal, st, "border"@, v) == (StyleView {
            border: Some(BorderType::Double),
            ..st
        }),
        (parse_unsigned(v, u32::MAX as nat) matches Some(n) && n > 2) ==> apply_pair(pal, st, "border"@, v) == (
        StyleView { border: Some(BorderType::Color), ..st }),
        parse_unsigned(v, u32::MAX as nat) is None ==> apply_pair(pal, st, "border"@, v) == st,
{
    reveal_strlit("fg");
    reveal_strlit("color");
    reveal_strlit("bg");
    reveal_strlit("background-color");
    reveal_strlit("border-color");
    reveal_strlit("border-block-color");
    reveal_strlit("border");
    assert("border"@.len() != "fg"@.len());
    assert("border"@.len() != "color"@.len());
    assert("border"@.len() != "bg"@.len());
    assert("border"@.len() != "background-color"@.len());
    assert("border"@.len() != "border-color"@.len());
    assert("border"@.len() != "border-block-color"@.len());
}

} // verus!
