//! CSS-like selectors: `tag#id.class:prop`, `parent > child` and
//! `ancestor descendant`.
use crate::text::{
    chars_eq, chars_of, concat_chars, has_prefix, owned, pieces, slice_range, split_char,
    split_on, starts_with, string_of, trim, trim_chars,
};
use crate::css::tokens::{css_captures, css_matches, CssGroups, CssGroupsView};
use vstd::prelude::*;

verus! {

/// One test that a selector makes of an element.
#[derive(PartialEq, Debug)]
pub enum Matcher {
    All,
    Local,
    Id(String),
    Tag(String),
    Class(String),
    NotClass(String),
    Prop(String),
    NotProp(String),
    Empty,
    FirstChild,
    LastChild,
    OnlyChild,
    Even,
    Odd,
    Current(Selector),
    Parent(Selector),
    Ancestor(Selector),
}

/// A selector: every one of its matchers must hold.
#[derive(PartialEq, Debug)]
pub struct Selector {
    pub matchers: Vec<Matcher>,
}

/// A matcher with its text as character sequences.
pub enum MatcherView {
    All,
    Local,
    Id(Seq<char>),
    Tag(Seq<char>),
    Class(Seq<char>),
    NotClass(Seq<char>),
    Prop(Seq<char>),
    NotProp(Seq<char>),
    Empty,
    FirstChild,
    LastChild,
    OnlyChild,
    Even,
    Odd,
    Current(Seq<MatcherView>),
    Parent(Seq<MatcherView>),
    Ancestor(Seq<MatcherView>),
}

/// The view of a matcher.
pub open spec fn view_matcher(m: Matcher) -> MatcherView
    decreases m,
{
    match m {
        Matcher::All => MatcherView::All,
        Matcher::Local => MatcherView::Local,
        Matcher::Id(s) => MatcherView::Id(s@),
        Matcher::Tag(s) => MatcherView::Tag(s@),
        Matcher::Class(s) => MatcherView::Class(s@),
        Matcher::NotClass(s) => MatcherView::NotClass(s@),
        Matcher::Prop(s) => MatcherView::Prop(s@),
        Matcher::NotProp(s) => MatcherView::NotProp(s@),
        Matcher::Empty => MatcherView::Empty,
        Matcher::FirstChild => MatcherView::FirstChild,
        Matcher::LastChild => MatcherView::LastChild,
        Matcher::OnlyChild => MatcherView::OnlyChild,
        Matcher::Even => MatcherView::Even,
        Matcher::Odd => MatcherView::Odd,
        Matcher::Current(sel) => MatcherView::Current(view_matchers(sel.matchers@)),
        Matcher::Parent(sel) => MatcherView::Parent(view_matchers(sel.matchers@)),
        Matcher::Ancestor(sel) => MatcherView::Ancestor(view_matchers(sel.matchers@)),
    }
}

/// The views of a sequence of matchers.
pub open spec fn view_matchers(ms: Seq<Matcher>) -> Seq<MatcherView>
    decreases ms,
{
    if ms.len() == 0 {
        seq![]
    } else {
        view_matchers(ms.subrange(0, ms.len() - 1)).push(view_matcher(ms[ms.len() - 1]))
    }
}

/// The score of a matcher: how specific it is.
pub open spec fn score_of(m: MatcherView) -> nat
    decreases m,
{
    match m {
        MatcherView::All => 0,
        MatcherView::Local => 10000,
        MatcherView::Id(_) => 1000,
        MatcherView::Tag(_) => 100,
        MatcherView::Class(_) => 10,
        MatcherView::NotClass(_) => 10,
        MatcherView::Prop(_) => 2,
        MatcherView::NotProp(_) => 2,
        MatcherView::Empty => 2,
        MatcherView::FirstChild => 2,
        MatcherView::LastChild => 2,
        MatcherView::OnlyChild => 2,
        MatcherView::Even => 1,
        MatcherView::Odd => 1,
        MatcherView::Current(ms) => scores_of(ms),
        MatcherView::Parent(ms) => scores_of(ms),
        MatcherView::Ancestor(ms) => scores_of(ms),
    }
}

/// The score of a selector: the sum of the scores of its matchers.
pub open spec fn scores_of(ms: Seq<MatcherView>) -> nat
    decreases ms,
{
    if ms.len() == 0 {
        0
    } else {
        scores_of(ms.subrange(0, ms.len() - 1)) + score_of(ms[ms.len() - 1])
    }
}

/// The view of a prefix grows by the view of the next matcher.
proof fn lemma_view_prefix(ms: Seq<Matcher>, i: int)
    requires
        0 <= i < ms.len(),
    ensures
        view_matchers(ms.take(i + 1)) == view_matchers(ms.take(i)).push(view_matcher(ms[i])),
{
    assert(ms.take(i + 1).subrange(0, i) == ms.take(i));
}

/// The view has one entry per matcher.
proof fn lemma_view_len(ms: Seq<Matcher>)
    ensures
        view_matchers(ms).len() == ms.len(),
    decreases ms.len(),
{
    if ms.len() > 0 {
        lemma_view_len(ms.subrange(0, ms.len() - 1));
    }
}

/// Scores of a prefix never exceed the scores of the whole.
proof fn lemma_scores_prefix(ms: Seq<MatcherView>, i: int)
    requires
        0 <= i <= ms.len(),
    ensures
        scores_of(ms.take(i)) <= scores_of(ms),
    decreases ms.len(),
{
    if i < ms.len() {
        lemma_scores_prefix(ms.subrange(0, ms.len() - 1), i);
        assert(ms.subrange(0, ms.len() - 1).take(i) == ms.take(i));
    } else {
        assert(ms.take(i) == ms);
    }
}

impl Matcher {
    /// How specific the matcher is (larger is more specific).
    pub fn score(&self) -> (r: u32)
        requires
            score_of(view_matcher(*self)) <= u32::MAX,
        ensures
            r == score_of(view_matcher(*self)),
        decreases self,
    {
        match self {
            Matcher::All => 0,
            Matcher::Local => 10000,
            Matcher::Id(_) => 1000,
            Matcher::Tag(_) => 100,
            Matcher::Class(_) => 10,
            Matcher::NotClass(_) => 10,
            Matcher::Prop(_) => 2,
            Matcher::NotProp(_) => 2,
            Matcher::Empty => 2,
            Matcher::FirstChild => 2,
            Matcher::LastChild => 2,
            Matcher::OnlyChild => 2,
            Matcher::Even => 1,
            Matcher::Odd => 1,
            Matcher::Current(sel) => sel.score(),
            Matcher::Parent(sel) => sel.score(),
            Matcher::Ancestor(sel) => sel.score(),
        }
    }
}

impl Selector {
    /// The matchers of this selector, viewed.
    pub open spec fn view(&self) -> Seq<MatcherView> {
        view_matchers(self.matchers@)
    }

    /// The sum of the scores of the matchers.
    pub fn score(&self) -> (r: u32)
        requires
            scores_of(self.view()) <= u32::MAX,
        ensures
            r == scores_of(self.view()),
        decreases self,
    {
        let ghost ms = self.matchers@;
        let mut total: u32 = 0;
        let mut i: usize = 0;
        assert(ms.take(0) == Seq::<Matcher>::empty());
        while i < self.matchers.len()
            invariant
                ms == self.matchers@,
                i <= ms.len(),
                scores_of(view_matchers(ms)) <= u32::MAX,
                total == scores_of(view_matchers(ms.take(i as int))),
            decreases ms.len() - i,
        {
            proof {
                lemma_view_prefix(ms, i as int);
                lemma_view_len(ms.take(i + 1));
                let vp = view_matchers(ms.take(i + 1));
                assert(vp.subrange(0, vp.len() - 1) == view_matchers(ms.take(i as int)));
                assert(view_matchers(ms.take(i + 1)) == view_matchers(ms).take(i + 1)) by {
                    lemma_view_take(ms, i + 1);
                }
                lemma_view_len(ms);
                lemma_scores_prefix(view_matchers(ms), i + 1);
                assert(score_of(view_matcher(ms[i as int])) <= u32::MAX);
            }
            let s = self.matchers[i].score();
            total = total + s;
            i = i + 1;
        }
        assert(ms.take(ms.len() as int) == ms);
        total
    }
}

/// Viewing a prefix gives the prefix of the view.
proof fn lemma_view_take(ms: Seq<Matcher>, i: int)
    requires
        0 <= i <= ms.len(),
    ensures
        view_matchers(ms.take(i)) == view_matchers(ms).take(i),
    decreases ms.len(),
{
    lemma_view_len(ms);
    lemma_view_len(ms.take(i));
    if i < ms.len() {
        lemma_view_take(ms.subrange(0, ms.len() - 1), i);
        assert(ms.subrange(0, ms.len() - 1).take(i) == ms.take(i));
        lemma_view_len(ms.subrange(0, ms.len() - 1));
        assert(view_matchers(ms).take(i) == view_matchers(ms.subrange(0, ms.len() - 1)).take(i));
    } else {
        assert(ms.take(i) == ms);
        assert(view_matchers(ms).take(i) == view_matchers(ms));
    }
}

/// The text inside `not(...)`: without the first four and the last character.
pub open spec fn not_inner(t: Seq<char>) -> Seq<char> {
    t.subrange(4, t.len() - 1)
}

/// Whether a `not(...)` text can be cut: the cut ends one byte before the
/// end, so the text must be at least five characters long and end in an ASCII
/// character.
pub open spec fn not_cut_ok(t: Seq<char>) -> bool {
    has_prefix(t, "not("@) ==> t.len() >= 5 && (t.last() as u32) < 0x80
}

/// The matchers of the tag group.
pub open spec fn tag_matchers(g: Option<Seq<char>>) -> Seq<MatcherView> {
    match g {
        None => seq![],
        Some(t) => if t == "*"@ {
            seq![]
        } else if t == "$"@ {
            seq![MatcherView::Local]
        } else {
            seq![MatcherView::Tag(t)]
        },
    }
}

/// The matchers of the id group.
pub open spec fn id_matchers(g: Option<Seq<char>>) -> Seq<MatcherView> {
    match g {
        None => seq![],
        Some(t) => seq![MatcherView::Id(t)],
    }
}

/// The matchers of the class group.
pub open spec fn class_matchers(g: Option<Seq<char>>) -> Seq<MatcherView> {
    match g {
        None => seq![],
        Some(t) => if has_prefix(t, "not("@) {
            seq![MatcherView::NotClass(not_inner(t))]
        } else {
            seq![MatcherView::Class(t)]
        },
    }
}

/// The matcher that a property names.
pub open spec fn prop_matcher(t: Seq<char>) -> MatcherView {
    if t == "even"@ {
        MatcherView::Even
    } else if t == "odd"@ {
        MatcherView::Odd
    } else if t == "first-child"@ {
        MatcherView::FirstChild
    } else if t == "last-child"@ {
        MatcherView::LastChild
    } else if t == "empty"@ {
        MatcherView::Empty
    } else if t == "unchecked"@ {
        MatcherView::NotProp("checked"@)
    } else if t == "enabled"@ {
        MatcherView::NotProp("disabled"@)
    } else if t == "valid"@ {
        MatcherView::NotProp("invalid"@)
    } else if has_prefix(t, "not("@) {
        MatcherView::NotProp(not_inner(t))
    } else {
        MatcherView::Prop(t)
    }
}

/// The matchers of the property group.
pub open spec fn prop_matchers(g: Option<Seq<char>>) -> Seq<MatcherView> {
    match g {
        None => seq![],
        Some(t) => seq![prop_matcher(t)],
    }
}

/// The matchers that one match contributes, in order.
pub open spec fn group_matchers(g: CssGroupsView) -> Seq<MatcherView> {
    tag_matchers(g.0) + id_matchers(g.1) + class_matchers(g.2) + prop_matchers(g.3)
}

/// The matchers of all matches, in order.
pub open spec fn all_matchers(gs: Seq<CssGroupsView>) -> Seq<MatcherView>
    decreases gs.len(),
{
    if gs.len() == 0 {
        seq![]
    } else {
        all_matchers(gs.drop_last()) + group_matchers(gs.last())
    }
}

/// Whether the `not(...)` cuts of one match are safe.
pub open spec fn groups_ok(g: CssGroupsView) -> bool {
    &&& (g.2 matches Some(t) ==> not_cut_ok(t))
    &&& (g.3 matches Some(t) ==> not_cut_ok(t))
}

/// Whether a part without spaces parses without panicking.
pub open spec fn simple_ok(t: Seq<char>) -> bool {
    t.len() == 0 || t == "*"@ || forall|i: int|
        0 <= i < css_matches(t).len() ==> #[trigger] groups_ok(css_matches(t)[i])
}

/// The result of parsing a trimmed part without spaces.
pub open spec fn simple_parse(t: Seq<char>) -> Result<Seq<MatcherView>, Seq<char>> {
    if t.len() == 0 || t == "*"@ {
        Ok(seq![MatcherView::All])
    } else {
        let ms = all_matchers(css_matches(t));
        if ms.len() == 0 {
            Err("Failed to parse Selector: "@ + t)
        } else {
            Ok(ms)
        }
    }
}

/// The trimmed pieces between the spaces of the trimmed text.
pub open spec fn space_parts(s: Seq<char>) -> Seq<Seq<char>> {
    split_on(trim(s), ' ').map_values(|p: Seq<char>| trim(p))
}

/// What `Selector::from_str` returns for `s`.
pub open spec fn parse_spec(s: Seq<char>) -> Result<Seq<MatcherView>, Seq<char>>
    decreases s.len(),
{
    let t = trim(s);
    let parts = space_parts(s);
    if parts.len() > 3 {
        Err("Unhandled CSS format - "@ + t)
    } else if parts.len() == 3 {
        if parts[1] != ">"@ {
            Err("We only support child '>' notation - "@ + t)
        } else {
            proof {
                lemma_space_parts_shorter(s, 0);
                lemma_space_parts_shorter(s, 2);
            }
            let parent = parse_spec(parts[0]);
            let current = parse_spec(parts[2]);
            Ok(
                seq![
                    MatcherView::Parent(parent->Ok_0),
                    MatcherView::Current(current->Ok_0),
                ],
            )
        }
    } else if parts.len() == 2 {
        proof {
            lemma_space_parts_shorter(s, 0);
            lemma_space_parts_shorter(s, 1);
        }
        let ancestor = parse_spec(parts[0]);
        let current = parse_spec(parts[1]);
        Ok(seq![MatcherView::Ancestor(ancestor->Ok_0), MatcherView::Current(current->Ok_0)])
    } else {
        simple_parse(t)
    }
}

/// The inputs on which `Selector::from_str` does not panic: the nested parts
/// parse, and no `not(...)` cut fails.
pub open spec fn parse_ok(s: Seq<char>) -> bool
    decreases s.len(),
{
    let t = trim(s);
    let parts = space_parts(s);
    if parts.len() > 3 {
        true
    } else if parts.len() == 3 {
        if parts[1] != ">"@ {
            true
        } else {
            proof {
                lemma_space_parts_shorter(s, 0);
                lemma_space_parts_shorter(s, 2);
            }
            parse_ok(parts[0]) && parse_spec(parts[0]) is Ok && parse_ok(parts[2]) && parse_spec(
                parts[2],
            ) is Ok
        }
    } else if parts.len() == 2 {
        proof {
            lemma_space_parts_shorter(s, 0);
            lemma_space_parts_shorter(s, 1);
        }
        parse_ok(parts[0]) && parse_spec(parts[0]) is Ok && parse_ok(parts[1]) && parse_spec(
            parts[1],
        ) is Ok
    } else {
        simple_ok(t)
    }
}

/// Trimming never makes text longer.
pub proof fn lemma_trim_len(s: Seq<char>)
    ensures
        trim(s).len() <= s.len(),
{
    lemma_trim_start_len(s);
    lemma_trim_end_len(crate::text::trim_start(s));
}

proof fn lemma_trim_start_len(s: Seq<char>)
    ensures
        crate::text::trim_start(s).len() <= s.len(),
    decreases s.len(),
{
    if s.len() > 0 && crate::text::is_white_space(s[0]) {
        lemma_trim_start_len(s.drop_first());
    }
}

proof fn lemma_trim_end_len(s: Seq<char>)
    ensures
        crate::text::trim_end(s).len() <= s.len(),
    decreases s.len(),
{
    if s.len() > 0 && crate::text::is_white_space(s.last()) {
        lemma_trim_end_len(s.drop_last());
    }
}

/// With more than one piece, every piece is shorter than the text.
pub proof fn lemma_split_pieces_shorter(s: Seq<char>, c: char, k: int)
    requires
        split_on(s, c).len() >= 2,
        0 <= k < split_on(s, c).len(),
    ensures
        split_on(s, c)[k].len() < s.len(),
    decreases s.len(),
{
    let p = crate::text::index_of(s, c);
    lemma_index_of_bound(s, c);
    if p < s.len() {
        let rest = s.skip(p as int + 1);
        if k > 0 {
            if split_on(rest, c).len() >= 2 {
                lemma_split_pieces_shorter(rest, c, k - 1);
            } else {
                lemma_split_nonempty(rest.skip(crate::text::index_of(rest, c) as int + 1), c);
                assert(split_on(rest, c)[k - 1] == rest);
            }
        }
    }
}

/// Splitting always gives at least one piece.
pub proof fn lemma_split_nonempty(s: Seq<char>, c: char)
    ensures
        split_on(s, c).len() >= 1,
    decreases s.len(),
{
    let p = crate::text::index_of(s, c);
    if p < s.len() {
        lemma_split_nonempty(s.skip(p as int + 1), c);
    }
}

proof fn lemma_index_of_bound(s: Seq<char>, c: char)
    ensures
        crate::text::index_of(s, c) <= s.len(),
    decreases s.len(),
{
    if s.len() > 0 && s[0] != c {
        lemma_index_of_bound(s.drop_first(), c);
    }
}

/// The pieces of a selector with two or three parts are shorter than it.
pub proof fn lemma_space_parts_shorter(s: Seq<char>, k: int)
    requires
        2 <= space_parts(s).len(),
        0 <= k < space_parts(s).len(),
    ensures
        space_parts(s)[k].len() < s.len(),
{
    let t = trim(s);
    lemma_trim_len(s);
    lemma_split_pieces_shorter(t, ' ', k);
    lemma_trim_len(split_on(t, ' ')[k]);
}

/// A parse result with its text as character sequences.
pub open spec fn result_view(r: Result<Selector, String>) -> Result<Seq<MatcherView>, Seq<char>> {
    match r {
        Ok(sel) => Ok(sel.view()),
        Err(e) => Err(e@),
    }
}

/// Appending a matcher appends its view.
proof fn lemma_view_push(ms: Seq<Matcher>, m: Matcher)
    ensures
        view_matchers(ms.push(m)) == view_matchers(ms).push(view_matcher(m)),
{
    assert(ms.push(m).subrange(0, ms.len() as int) == ms);
}

/// Pushes `m` onto `out`, keeping track of the view.
fn push_matcher(out: &mut Vec<Matcher>, m: Matcher)
    ensures
        view_matchers(final(out)@) == view_matchers(old(out)@).push(view_matcher(m)),
{
    proof {
        lemma_view_push(out@, m);
    }
    out.push(m);
}

/// The characters of a string.
fn string_chars(s: &String) -> (v: Vec<char>)
    ensures
        v@ == s@,
{
    chars_of(s.as_str())
}

/// The text inside `not(...)`.
fn not_inner_string(t: &[char]) -> (r: String)
    requires
        t@.len() >= 5,
    ensures
        r@ == not_inner(t@),
{
    let inner = slice_range(t, 4, t.len() - 1);
    string_of(inner.as_slice())
}

/// The matcher that a property names.
fn prop_to_matcher(p: String) -> (m: Matcher)
    requires
        not_cut_ok(p@),
    ensures
        view_matcher(m) == prop_matcher(p@),
{
    let pc = string_chars(&p);
    let pc = pc.as_slice();
    if chars_eq(pc, chars_of("even").as_slice()) {
        Matcher::Even
    } else if chars_eq(pc, chars_of("odd").as_slice()) {
        Matcher::Odd
    } else if chars_eq(pc, chars_of("first-child").as_slice()) {
        Matcher::FirstChild
    } else if chars_eq(pc, chars_of("last-child").as_slice()) {
        Matcher::LastChild
    } else if chars_eq(pc, chars_of("empty").as_slice()) {
        Matcher::Empty
    } else if chars_eq(pc, chars_of("unchecked").as_slice()) {
        Matcher::NotProp(owned("checked"))
    } else if chars_eq(pc, chars_of("enabled").as_slice()) {
        Matcher::NotProp(owned("disabled"))
    } else if chars_eq(pc, chars_of("valid").as_slice()) {
        Matcher::NotProp(owned("invalid"))
    } else if starts_with(pc, chars_of("not(").as_slice()) {
        Matcher::NotProp(not_inner_string(pc))
    } else {
        Matcher::Prop(p)
    }
}

/// Appends the matchers of one token.
pub fn push_group_matchers(out: &mut Vec<Matcher>, g: CssGroups)
    requires
        groups_ok(g.deep_view()),
    ensures
        view_matchers(final(out)@) == view_matchers(old(out)@) + group_matchers(g.deep_view()),
{
    let ghost gv = g.deep_view();
    let ghost start = view_matchers(out@);
    let (g_tag, g_id, g_class, g_prop) = g;
    match g_tag {
        None => {},
        Some(t) => {
            let tc = string_chars(&t);
            if chars_eq(tc.as_slice(), chars_of("*").as_slice()) {
            } else if chars_eq(tc.as_slice(), chars_of("$").as_slice()) {
                push_matcher(out, Matcher::Local);
            } else {
                push_matcher(out, Matcher::Tag(t));
            }
        },
    }
    assert(view_matchers(out@) == start + tag_matchers(gv.0));
    match g_id {
        None => {},
        Some(i) => {
            push_matcher(out, Matcher::Id(i));
        },
    }
    assert(view_matchers(out@) == start + tag_matchers(gv.0) + id_matchers(gv.1));
    match g_class {
        None => {},
        Some(c) => {
            let cc = string_chars(&c);
            if starts_with(cc.as_slice(), chars_of("not(").as_slice()) {
                push_matcher(out, Matcher::NotClass(not_inner_string(cc.as_slice())));
            } else {
                push_matcher(out, Matcher::Class(c));
            }
        },
    }
    assert(view_matchers(out@) == start + tag_matchers(gv.0) + id_matchers(gv.1) + class_matchers(
        gv.2,
    ));
    match g_prop {
        None => {},
        Some(p) => {
            push_matcher(out, prop_to_matcher(p));
        },
    }
    assert(view_matchers(out@) == start + tag_matchers(gv.0) + id_matchers(gv.1) + class_matchers(
        gv.2,
    ) + prop_matchers(gv.3));
    assert(group_matchers(gv) == tag_matchers(gv.0) + id_matchers(gv.1) + class_matchers(gv.2)
        + prop_matchers(gv.3));
}

/// Parses a trimmed part that holds no spaces.
pub fn parse_simple(t: &[char]) -> (r: Result<Selector, String>)
    requires
        simple_ok(t@),
    ensures
        result_view(r) == simple_parse(t@),
{
    if t.len() == 0 || chars_eq(t, chars_of("*").as_slice()) {
        let mut ms: Vec<Matcher> = Vec::new();
        push_matcher(&mut ms, Matcher::All);
        return Ok(Selector { matchers: ms });
    }
    let mut gs = css_captures(t);
    let ghost all = gs.deep_view();
    let mut ms: Vec<Matcher> = Vec::new();
    let mut i: usize = 0;
    let n = gs.len();
    assert(all.take(0) == Seq::<CssGroupsView>::empty());
    assert forall|j: int| 0 <= j < gs@.len() implies #[trigger] gs@[j].deep_view() == all[0 + j] by {
        assert(gs.deep_view()[j] == gs@[j].deep_view());
    }
    while gs.len() > 0
        invariant
            all == css_matches(t@),
            n == all.len(),
            i + gs@.len() == n,
            forall|j: int| 0 <= j < gs@.len() ==> #[trigger] gs@[j].deep_view() == all[i + j],
            forall|j: int| 0 <= j < all.len() ==> #[trigger] groups_ok(all[j]),
            view_matchers(ms@) == all_matchers(all.take(i as int)),
        decreases gs@.len(),
    {
        let ghost before = gs@;
        assert(before[0].deep_view() == all[i + 0]);
        let g = gs.remove(0);
        assert forall|j: int| 0 <= j < gs@.len() implies #[trigger] gs@[j].deep_view() == all[(i
            + 1) + j] by {
            assert(gs@[j] == before[j + 1]);
            assert(before[j + 1].deep_view() == all[i + (j + 1)]);
        }
        push_group_matchers(&mut ms, g);
        assert(all.take(i + 1).drop_last() == all.take(i as int));
        assert(all.take(i + 1).last() == all[i as int]);
        i = i + 1;
    }
    assert(all.take(n as int) == all);
    proof {
        lemma_view_len(ms@);
    }
    if ms.len() == 0 {
        return Err(concat_chars("Failed to parse Selector: ", t));
    }
    Ok(Selector { matchers: ms })
}

/// Parses a selector (the body of `Selector::from_str`).
fn parse_chars(s: &[char]) -> (r: Result<Selector, String>)
    requires
        parse_ok(s@),
    ensures
        result_view(r) == parse_spec(s@),
    decreases s@.len(),
{
    let t = trim_chars(s);
    let raw = split_char(t.as_slice(), ' ');
    let mut parts: Vec<Vec<char>> = Vec::new();
    let mut k: usize = 0;
    while k < raw.len()
        invariant
            k <= raw@.len(),
            parts@.len() == k,
            forall|j: int| 0 <= j < k ==> #[trigger] parts@[j]@ == trim(raw@[j]@),
        decreases raw@.len() - k,
    {
        parts.push(trim_chars(raw[k].as_slice()));
        k = k + 1;
    }
    let ghost sp = space_parts(s@);
    assert(pieces(raw@) == split_on(t@, ' '));
    assert(sp.len() == parts@.len());
    assert(forall|j: int| 0 <= j < sp.len() ==> sp[j] == #[trigger] parts@[j]@) by {
        assert forall|j: int| 0 <= j < sp.len() implies sp[j] == #[trigger] parts@[j]@ by {
            assert(pieces(raw@)[j] == raw@[j]@);
        }
    }
    if parts.len() > 3 {
        return Err(concat_chars("Unhandled CSS format - ", t.as_slice()));
    }
    if parts.len() == 3 {
        if !chars_eq(parts[1].as_slice(), chars_of(">").as_slice()) {
            return Err(concat_chars("We only support child '>' notation - ", t.as_slice()));
        }
        proof {
            lemma_space_parts_shorter(s@, 0);
            lemma_space_parts_shorter(s@, 2);
        }
        let parent = match parse_chars(parts[0].as_slice()) {
            Ok(p) => p,
            Err(e) => {
                return Err(e);
            },
        };
        let current = match parse_chars(parts[2].as_slice()) {
            Ok(c) => c,
            Err(e) => {
                return Err(e);
            },
        };
        let ghost pv = parent.view();
        let ghost cv = current.view();
        let mut ms: Vec<Matcher> = Vec::new();
        assert(view_matchers(ms@) == Seq::<MatcherView>::empty());
        push_matcher(&mut ms, Matcher::Parent(parent));
        push_matcher(&mut ms, Matcher::Current(current));
        assert(view_matchers(ms@) == seq![MatcherView::Parent(pv), MatcherView::Current(cv)]);
        assert(parts@[1]@ == ">"@);
        return Ok(Selector { matchers: ms });
    }
    if parts.len() == 2 {
        proof {
            lemma_space_parts_shorter(s@, 0);
            lemma_space_parts_shorter(s@, 1);
        }
        let ancestor = match parse_chars(parts[0].as_slice()) {
            Ok(p) => p,
            Err(e) => {
                return Err(e);
            },
        };
        let current = match parse_chars(parts[1].as_slice()) {
            Ok(c) => c,
            Err(e) => {
                return Err(e);
            },
        };
        let ghost av = ancestor.view();
        let ghost cv = current.view();
        let mut ms: Vec<Matcher> = Vec::new();
        assert(view_matchers(ms@) == Seq::<MatcherView>::empty());
        push_matcher(&mut ms, Matcher::Ancestor(ancestor));
        push_matcher(&mut ms, Matcher::Current(current));
        assert(view_matchers(ms@) == seq![MatcherView::Ancestor(av), MatcherView::Current(cv)]);
        return Ok(Selector { matchers: ms });
    }
    parse_simple(t.as_slice())
}

/// Whether `parse_ok` holds, computed.
fn parse_ok_chars(s: &[char]) -> (b: bool)
    ensures
        b == parse_ok(s@),
    decreases s@.len(), 0nat,
{
    let t = trim_chars(s);
    let raw = split_char(t.as_slice(), ' ');
    let mut parts: Vec<Vec<char>> = Vec::new();
    let mut k: usize = 0;
    while k < raw.len()
        invariant
            k <= raw@.len(),
            parts@.len() == k,
            forall|j: int| 0 <= j < k ==> #[trigger] parts@[j]@ == trim(raw@[j]@),
        decreases raw@.len() - k,
    {
        parts.push(trim_chars(raw[k].as_slice()));
        k = k + 1;
    }
    let ghost sp = space_parts(s@);
    assert(pieces(raw@) == split_on(t@, ' '));
    assert(sp.len() == parts@.len());
    assert(forall|j: int| 0 <= j < sp.len() ==> sp[j] == #[trigger] parts@[j]@) by {
        assert forall|j: int| 0 <= j < sp.len() implies sp[j] == #[trigger] parts@[j]@ by {
            assert(pieces(raw@)[j] == raw@[j]@);
        }
    }
    if parts.len() > 3 {
        return true;
    }
    if parts.len() == 3 {
        if !chars_eq(parts[1].as_slice(), chars_of(">").as_slice()) {
            return true;
        }
        proof {
            lemma_space_parts_shorter(s@, 0);
            lemma_space_parts_shorter(s@, 2);
        }
        return part_parses(parts[0].as_slice()) && part_parses(parts[2].as_slice());
    }
    if parts.len() == 2 {
        proof {
            lemma_space_parts_shorter(s@, 0);
            lemma_space_parts_shorter(s@, 1);
        }
        return part_parses(parts[0].as_slice()) && part_parses(parts[1].as_slice());
    }
    simple_ok_chars(t.as_slice())
}

/// Whether a nested part parses without panicking and without error.
fn part_parses(p: &[char]) -> (b: bool)
    ensures
        b == (parse_ok(p@) && parse_spec(p@) is Ok),
    decreases p@.len(), 1nat,
{
    if !parse_ok_chars(p) {
        return false;
    }
    parse_chars(p).is_ok()
}

/// Whether the `not(...)` cut of a group is safe.
fn not_cut_ok_string(g: &Option<String>) -> (b: bool)
    ensures
        b == (g.deep_view() matches Some(t) ==> not_cut_ok(t)),
{
    match g {
        None => true,
        Some(t) => {
            let tc = string_chars(t);
            if starts_with(tc.as_slice(), chars_of("not(").as_slice()) {
                tc.len() >= 5 && (tc[tc.len() - 1] as u32) < 0x80
            } else {
                true
            }
        },
    }
}

/// Whether `simple_ok` holds, computed.
fn simple_ok_chars(t: &[char]) -> (b: bool)
    ensures
        b == simple_ok(t@),
{
    if t.len() == 0 || chars_eq(t, chars_of("*").as_slice()) {
        return true;
    }
    let gs = css_captures(t);
    let ghost all = gs.deep_view();
    let mut i: usize = 0;
    while i < gs.len()
        invariant
            t@.len() != 0,
            t@ != "*"@,
            all == css_matches(t@),
            all == gs.deep_view(),
            i <= gs@.len(),
            forall|j: int| 0 <= j < i ==> #[trigger] groups_ok(all[j]),
        decreases gs@.len() - i,
    {
        assert(all[i as int] == gs@[i as int].deep_view());
        if !(not_cut_ok_string(&gs[i].2) && not_cut_ok_string(&gs[i].3)) {
            assert(!groups_ok(all[i as int]));
            assert(t@ != "*"@);
            assert(!groups_ok(css_matches(t@)[i as int]));
            return false;
        }
        i = i + 1;
    }
    true
}

impl Selector {
    /// Adds a matcher.
    fn push(&mut self, matcher: Matcher)
        ensures
            final(self).view() == old(self).view().push(view_matcher(matcher)),
    {
        push_matcher(&mut self.matchers, matcher);
    }

    /// Parses a selector: `tag#id.class:prop` (with `*` for any tag and `$` for
    /// the local style), `parent > child`, or `ancestor descendant`.
    pub fn parse(text: &str) -> (r: Result<Selector, String>)
        requires
            parse_ok(text@),
        ensures
            result_view(r) == parse_spec(text@),
    {
        let v = chars_of(text);
        parse_chars(v.as_slice())
    }

    /// `parse`, or `None` on the inputs on which it would panic.
    pub fn try_parse(text: &str) -> (r: Option<Result<Selector, String>>)
        ensures
            match r {
                Some(res) => parse_ok(text@) && result_view(res) == parse_spec(text@),
                None => !parse_ok(text@),
            },
    {
        let v = chars_of(text);
        if parse_ok_chars(v.as_slice()) {
            Some(Selector::parse(text))
        } else {
            None
        }
    }

    /// Parses a selector that is known to be valid.
    pub fn new(text: &str) -> (sel: Selector)
        requires
            parse_ok(text@),
            parse_spec(text@) is Ok,
        ensures
            sel.view() == parse_spec(text@)->Ok_0,
    {
        match Selector::parse(text) {
            Ok(sel) => sel,
            Err(_) => {
                proof {
                    assert(false);
                }
                Selector { matchers: Vec::new() }
            },
        }
    }

    /// `new`, or `None` where the text does not parse.
    pub fn try_new(text: &str) -> (r: Option<Selector>)
        ensures
            match r {
                Some(sel) => parse_ok(text@) && parse_spec(text@) is Ok && sel.view() == parse_spec(
                    text@,
                )->Ok_0,
                None => !(parse_ok(text@) && parse_spec(text@) is Ok),
            },
    {
        match Selector::try_parse(text) {
            Some(Ok(_)) => Some(Selector::new(text)),
            _ => None,
        }
    }
}

/// Parses with `Selector::parse`. On the inputs on which a nested part does
/// not parse, or a `not(...)` cut would fall inside a character, this returns
/// an error where an unchecked parse would panic.
impl core::str::FromStr for Selector {
    type Err = String;

    fn from_str(s: &str) -> (r: Result<Selector, String>)
        ensures
            parse_ok(s@) ==> result_view(r) == parse_spec(s@),
            !parse_ok(s@) ==> result_view(r) == Err::<Seq<MatcherView>, Seq<char>>(
                "Unparsable selector - "@ + s@,
            ),
    {
        match Selector::try_parse(s) {
            Some(r) => r,
            None => Err(concat_chars("Unparsable selector - ", chars_of(s).as_slice())),
        }
    }
}

} // verus!
