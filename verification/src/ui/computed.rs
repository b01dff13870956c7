//! The style an element ends up with: for each value, the most specific
//! style that matches the element and sets it, or else what its parent ends up
//! with, or else a default.
use crate::color::rgba::{black, white, RGBA};
use crate::css::matching::{base_selector_holds, selector_holds};
use crate::css::selector::scores_of;
use crate::draw::BorderType;
use crate::ui::element::{node_wf, tree_wf, ElementNode, ElementTree};
use crate::ui::sheet::StyleSheet;
use crate::ui::sort::{is_permutation, score_of_style, stably_sorted, takes_value};
use crate::ui::style::{Style, StyleView};
use vstd::prelude::*;

verus! {

/// The colors a style can set.
#[derive(PartialEq, Eq, Debug, Copy, Clone, Structural)]
pub enum StyleColor {
    Fg,
    Bg,
    BorderFg,
    BorderBg,
    AccentFg,
}

/// The color `s` sets for `f`, if it sets one.
pub open spec fn color_of(s: StyleView, f: StyleColor) -> Option<RGBA> {
    match f {
        StyleColor::Fg => s.fg,
        StyleColor::Bg => s.bg,
        StyleColor::BorderFg => s.border_fg,
        StyleColor::BorderBg => s.border_bg,
        StyleColor::AccentFg => s.accent_fg,
    }
}

/// The color an element gets for `f` when neither it nor any ancestor has a
/// style that sets one: white for foregrounds, black for backgrounds.
pub open spec fn default_color(f: StyleColor) -> RGBA {
    match f {
        StyleColor::Bg => RGBA(0, 0, 0, 255),
        StyleColor::BorderBg => RGBA(0, 0, 0, 255),
        _ => RGBA(255, 255, 255, 255),
    }
}

/// Style `i` of `sheet` applies to element `el`: its selector matches the
/// element in full, and, for the first `nb` styles (those of the style
/// sheet, as opposed to the element's own style), on structure too.
pub open spec fn style_applies(sheet: Seq<StyleView>, nb: int, t: Seq<ElementNode>, el: int, i: int) -> bool {
    (i >= nb || base_selector_holds(t, el, sheet[i].selector)) && selector_holds(t, el, sheet[i].selector)
}

/// The styles that can decide a value for `el`: those of the sheet, and after
/// them the element's own style, if it has one.
pub open spec fn styles_for(sheet: Seq<StyleView>, t: Seq<ElementNode>, el: int) -> Seq<StyleView> {
    if 0 <= el < t.len() && t[el].local_style is Some {
        sheet.push(t[el].local_style->Some_0.view())
    } else {
        sheet
    }
}

/// Every element's own style has a score that fits a `u32`.
pub open spec fn local_scores_fit(t: Seq<ElementNode>) -> bool {
    forall|i: int|
        0 <= i < t.len() && (#[trigger] t[i]).local_style is Some ==> scores_of(
            t[i].local_style->Some_0.view().selector,
        ) <= u32::MAX
}

/// Among the first `k` styles, the one that applies to `el` and sets `f`
/// with the highest score; of equal scores, the first.
pub open spec fn best_color_style(
    sheet: Seq<StyleView>, nb: int,
    t: Seq<ElementNode>,
    el: int,
    f: StyleColor,
    k: int,
) -> Option<int>
    decreases k,
{
    if k <= 0 {
        None
    } else {
        let b = best_color_style(sheet, nb, t, el, f, k - 1);
        let i = k - 1;
        if style_applies(sheet, nb, t, el, i) && color_of(sheet[i], f) is Some && (b is None || scores_of(
            sheet[i].selector,
        ) > scores_of(sheet[b->Some_0].selector)) {
            Some(i)
        } else {
            b
        }
    }
}

/// The color element `el` ends up with for `f`: that of the best style of
/// `styles_for` that applies to it and sets one, or else its parent's, or
/// else the default.
pub open spec fn computed_color(sheet: Seq<StyleView>, t: Seq<ElementNode>, el: int, f: StyleColor) -> RGBA
    decreases el + 1,
{
    let st = styles_for(sheet, t, el);
    match best_color_style(st, sheet.len() as int, t, el, f, st.len() as int) {
        Some(i) => color_of(st[i], f)->Some_0,
        None => if 0 <= el < t.len() && t[el].parent is Some && t[el].parent->Some_0 < el {
            computed_color(sheet, t, t[el].parent->Some_0 as int, f)
        } else {
            default_color(f)
        },
    }
}

/// Among the first `k` styles, the one that applies to `el` and sets a
/// border with the highest score; of equal scores, the first.
pub open spec fn best_border_style(sheet: Seq<StyleView>, nb: int, t: Seq<ElementNode>, el: int, k: int) -> Option<
    int,
>
    decreases k,
{
    if k <= 0 {
        None
    } else {
        let b = best_border_style(sheet, nb, t, el, k - 1);
        let i = k - 1;
        if style_applies(sheet, nb, t, el, i) && sheet[i].border is Some && (b is None || scores_of(
            sheet[i].selector,
        ) > scores_of(sheet[b->Some_0].selector)) {
            Some(i)
        } else {
            b
        }
    }
}

/// The border element `el` ends up with: that of its best style, or else its
/// parent's, or else none.
pub open spec fn computed_border(sheet: Seq<StyleView>, t: Seq<ElementNode>, el: int) -> Option<
    BorderType,
>
    decreases el + 1,
{
    let st = styles_for(sheet, t, el);
    match best_border_style(st, sheet.len() as int, t, el, st.len() as int) {
        Some(i) => st[i].border,
        None => if 0 <= el < t.len() && t[el].parent is Some && t[el].parent->Some_0 < el {
            computed_border(sheet, t, t[el].parent->Some_0 as int)
        } else {
            None
        },
    }
}

/// The styles of `sheet` among the first `k` that can apply to `el` on
/// structure alone, by position.
pub open spec fn base_matching(sheet: Seq<StyleView>, t: Seq<ElementNode>, el: int, k: int) -> Seq<
    usize,
>
    decreases k,
{
    if k <= 0 {
        seq![]
    } else if base_selector_holds(t, el, sheet[k - 1].selector) {
        base_matching(sheet, t, el, k - 1).push((k - 1) as usize)
    } else {
        base_matching(sheet, t, el, k - 1)
    }
}

/// Every style of the sheet has a score that fits a `u32`.
pub open spec fn scores_fit(sheet: Seq<StyleView>) -> bool {
    forall|i: int| 0 <= i < sheet.len() ==> scores_of(#[trigger] sheet[i].selector) <= u32::MAX
}

/// The color `s` sets for `f`, if it sets one.
fn style_color(s: &Style, f: StyleColor) -> (c: Option<RGBA>)
    ensures
        c == color_of(s.view(), f),
{
    match f {
        StyleColor::Fg => s.fg(),
        StyleColor::Bg => s.bg(),
        StyleColor::BorderFg => s.border_fg(),
        StyleColor::BorderBg => s.border_bg(),
        StyleColor::AccentFg => s.accent_fg(),
    }
}

impl StyleSheet {
    /// The positions of the styles that can apply to `el` on the structure of
    /// the tree alone, in order.
    pub fn get_all_for_element(&self, tree: &ElementTree, el: usize) -> (r: Vec<usize>)
        requires
            tree.wf(),
            tree.valid(el),
        ensures
            r@ == base_matching(self.view(), tree@, el as int, self.view().len() as int),
    {
        let mut out: Vec<usize> = Vec::new();
        let n = self.len();
        let mut k: usize = 0;
        while k < n
            invariant
                tree.wf(),
                tree.valid(el),
                n == self.view().len(),
                k <= n,
                out@ == base_matching(self.view(), tree@, el as int, k as int),
            decreases n - k,
        {
            if self.get(k).is_base_match(tree, el) {
                out.push(k);
            }
            k = k + 1;
        }
        out
    }

    /// The position in `styles_for` of the style that decides `f` for `el`
    /// itself, if any (the sheet's length stands for the element's own style).
    fn best_color_style(&self, tree: &ElementTree, el: usize, f: StyleColor) -> (r: Option<usize>)
        requires
            tree.wf(),
            tree.valid(el),
            scores_fit(self.view()),
            local_scores_fit(tree@),
        ensures
            ({
                let st = styles_for(self.view(), tree@, el as int);
                match r {
                    Some(i) => i < st.len() && best_color_style(st, self.view().len() as int, tree@, el as int, f, st.len() as int)
                        == Some(i as int),
                    None => best_color_style(st, self.view().len() as int, tree@, el as int, f, st.len() as int) is None,
                }
            }),
    {
        let ghost st = styles_for(self.view(), tree@, el as int);
        let n = self.len();
        let mut best: Option<usize> = None;
        let mut best_score: u32 = 0;
        let mut k: usize = 0;
        while k < n
            invariant
                tree.wf(),
                tree.valid(el),
                n == self.view().len(),
                scores_fit(self.view()),
                st == styles_for(self.view(), tree@, el as int),
                forall|j: int| 0 <= j < n ==> #[trigger] st[j] == self.view()[j],
                k <= n,
                match best {
                    Some(i) => best_color_style(st, n as int, tree@, el as int, f, k as int) == Some(i as int)
                        && i < n && best_score == scores_of(st[i as int].selector),
                    None => best_color_style(st, n as int, tree@, el as int, f, k as int) is None,
                },
            decreases n - k,
        {
            let s = self.get(k);
            assert(st[k as int] == self.view()[k as int]);
            let c = style_color(s, f);
            if c.is_some() && s.is_base_match(tree, el) && s.matches(tree, el) {
                assert(scores_of(self.view()[k as int].selector) <= u32::MAX);
                let score = s.score();
                if best.is_none() || score > best_score {
                    best = Some(k);
                    best_score = score;
                }
            }
            k = k + 1;
        }
        match tree.local_style(el) {
            Some(l) => {
                assert(st[n as int] == l.view());
                let c = style_color(l, f);
                if c.is_some() && l.matches(tree, el) {
                    assert(tree@[el as int].local_style is Some);
                    let score = l.score();
                    if best.is_none() || score > best_score {
                        best = Some(n);
                    }
                }
            },
            None => {},
        }
        best
    }

    /// The style at position `i` of `styles_for`: the sheet's, or past them
    /// the element's own.
    fn style_for<'a>(&'a self, tree: &'a ElementTree, el: usize, i: usize) -> (s: &'a Style)
        requires
            tree.valid(el),
            i < styles_for(self.view(), tree@, el as int).len(),
        ensures
            s.view() == styles_for(self.view(), tree@, el as int)[i as int],
    {
        if i < self.len() {
            self.get(i)
        } else {
            match tree.local_style(el) {
                Some(l) => l,
                None => {
                    proof {
                        assert(false);
                    }
                    self.get(0)
                },
            }
        }
    }

    /// The color element `el` ends up with for `f`: that of the most
    /// specific style that applies to it and sets one (the first of equal
    /// scores, the element's own style coming after the sheet's), or else its
    /// parent's, or else the default.
    pub fn computed_color(&self, tree: &ElementTree, el: usize, f: StyleColor) -> (r: RGBA)
        requires
            tree.wf(),
            tree.valid(el),
            scores_fit(self.view()),
            local_scores_fit(tree@),
        ensures
            r == computed_color(self.view(), tree@, el as int, f),
        decreases el,
    {
        proof {
            assert(node_wf(tree@, el as int));
        }
        let ghost st = styles_for(self.view(), tree@, el as int);
        match self.best_color_style(tree, el, f) {
            Some(i) => {
                let c = style_color(self.style_for(tree, el, i), f);
                match c {
                    Some(rgba) => rgba,
                    None => {
                        proof {
                            lemma_best_color_sets(st, self.view().len() as int, tree@, el as int, f, st.len() as int);
                        }
                        white()
                    },
                }
            },
            None => match tree.parent(el) {
                Some(p) => self.computed_color(tree, p, f),
                None => match f {
                    StyleColor::Bg => black(),
                    StyleColor::BorderBg => black(),
                    _ => white(),
                },
            },
        }
    }

    /// The position in `styles_for` of the style that decides the border of
    /// `el` itself.
    fn best_border_style(&self, tree: &ElementTree, el: usize) -> (r: Option<usize>)
        requires
            tree.wf(),
            tree.valid(el),
            scores_fit(self.view()),
            local_scores_fit(tree@),
        ensures
            ({
                let st = styles_for(self.view(), tree@, el as int);
                match r {
                    Some(i) => i < st.len() && best_border_style(st, self.view().len() as int, tree@, el as int, st.len() as int)
                        == Some(i as int),
                    None => best_border_style(st, self.view().len() as int, tree@, el as int, st.len() as int) is None,
                }
            }),
    {
        let ghost st = styles_for(self.view(), tree@, el as int);
        let n = self.len();
        let mut best: Option<usize> = None;
        let mut best_score: u32 = 0;
        let mut k: usize = 0;
        while k < n
            invariant
                tree.wf(),
                tree.valid(el),
                n == self.view().len(),
                scores_fit(self.view()),
                st == styles_for(self.view(), tree@, el as int),
                forall|j: int| 0 <= j < n ==> #[trigger] st[j] == self.view()[j],
                k <= n,
                match best {
                    Some(i) => best_border_style(st, n as int, tree@, el as int, k as int) == Some(i as int)
                        && i < n && best_score == scores_of(st[i as int].selector),
                    None => best_border_style(st, n as int, tree@, el as int, k as int) is None,
                },
            decreases n - k,
        {
            let s = self.get(k);
            assert(st[k as int] == self.view()[k as int]);
            if s.border().is_some() && s.is_base_match(tree, el) && s.matches(tree, el) {
                assert(scores_of(self.view()[k as int].selector) <= u32::MAX);
                let score = s.score();
                if best.is_none() || score > best_score {
                    best = Some(k);
                    best_score = score;
                }
            }
            k = k + 1;
        }
        match tree.local_style(el) {
            Some(l) => {
                assert(st[n as int] == l.view());
                if l.border().is_some() && l.matches(tree, el) {
                    assert(tree@[el as int].local_style is Some);
                    let score = l.score();
                    if best.is_none() || score > best_score {
                        best = Some(n);
                    }
                }
            },
            None => {},
        }
        best
    }

    /// The border element `el` ends up with: that of the most specific style
    /// that applies to it and sets one, or else its parent's, or else none.
    pub fn computed_border(&self, tree: &ElementTree, el: usize) -> (r: Option<BorderType>)
        requires
            tree.wf(),
            tree.valid(el),
            scores_fit(self.view()),
            local_scores_fit(tree@),
        ensures
            r == computed_border(self.view(), tree@, el as int),
        decreases el,
    {
        proof {
            assert(node_wf(tree@, el as int));
        }
        match self.best_border_style(tree, el) {
            Some(i) => self.style_for(tree, el, i).border(),
            None => match tree.parent(el) {
                Some(p) => self.computed_border(tree, p),
                None => None,
            },
        }
    }
}

/// Style `a` comes before style `b` in score order: a higher score first,
/// and of equal scores the one that stands first in the sheet.
pub open spec fn ranks_before(sheet: Seq<StyleView>, a: int, b: int) -> bool {
    ||| score_of_style(sheet[a]) > score_of_style(sheet[b])
    ||| (score_of_style(sheet[a]) == score_of_style(sheet[b]) && a < b)
}

/// `r` lists styles of the sheet in score order, each once.
pub open spec fn in_score_order(sheet: Seq<StyleView>, r: Seq<usize>) -> bool {
    forall|a: int, b: int| 0 <= a < b < r.len() ==> ranks_before(sheet, #[trigger] r[a] as int, #[trigger] r[b] as int)
}

/// Inserting `k` in front of the first style of a lower score keeps the
/// score order, when `k` comes after every style already listed.
proof fn lemma_insert_in_order(sheet: Seq<StyleView>, r: Seq<usize>, p: int, k: usize)
    requires
        in_score_order(sheet, r),
        0 <= p <= r.len(),
        forall|q: int| 0 <= q < p ==> score_of_style(sheet[#[trigger] r[q] as int]) >= score_of_style(sheet[k as int]),
        forall|q: int| p <= q < r.len() ==> score_of_style(sheet[#[trigger] r[q] as int]) < score_of_style(sheet[k as int]),
        forall|q: int| 0 <= q < r.len() ==> #[trigger] r[q] < k,
    ensures
        in_score_order(sheet, r.insert(p, k)),
{
    let r2 = r.insert(p, k);
    assert forall|a: int, b: int| 0 <= a < b < r2.len() implies ranks_before(sheet, #[trigger] r2[a] as int, #[trigger] r2[b] as int) by {
        if a < p && b < p {
            assert(r2[a] == r[a] && r2[b] == r[b]);
        } else if a < p && b == p {
            assert(r2[a] == r[a] && r2[b] == k);
        } else if a < p {
            assert(r2[a] == r[a] && r2[b] == r[b - 1]);
        } else if a == p {
            assert(r2[a] == k && r2[b] == r[b - 1]);
        } else {
            assert(r2[a] == r[a - 1] && r2[b] == r[b - 1]);
        }
    }
}

impl StyleSheet {
    /// The styles of the sheet that can apply to `el` on the structure of the
    /// tree alone (those of `get_all_for_element`), in score order: the
    /// highest score first, and of equal scores the one that stands first in
    /// the sheet. The element's own style, which it holds itself, is not
    /// among them.
    pub fn styles_by_score(&self, tree: &ElementTree, el: usize) -> (r: Vec<usize>)
        requires
            tree.wf(),
            tree.valid(el),
            scores_fit(self.view()),
        ensures
            forall|j: usize| #[trigger] r@.contains(j) <==> (j < self.view().len() && base_selector_holds(
                tree@,
                el as int,
                self.view()[j as int].selector,
            )),
            in_score_order(self.view(), r@),
    {
        let mut out: Vec<usize> = Vec::new();
        let n = self.len();
        let mut k: usize = 0;
        while k < n
            invariant
                tree.wf(),
                tree.valid(el),
                n == self.view().len(),
                scores_fit(self.view()),
                k <= n,
                forall|j: usize| #[trigger] out@.contains(j) <==> (j < k && base_selector_holds(
                    tree@,
                    el as int,
                    self.view()[j as int].selector,
                )),
                in_score_order(self.view(), out@),
            decreases n - k,
        {
            let s = self.get(k);
            if s.is_base_match(tree, el) {
                assert(scores_of(self.view()[k as int].selector) <= u32::MAX);
                let sk = s.score();
                let mut p: usize = 0;
                let mut found = false;
                while !found && p < out.len()
                    invariant
                        n == self.view().len(),
                        scores_fit(self.view()),
                        k < n,
                        sk == score_of_style(self.view()[k as int]),
                        forall|j: usize| #[trigger] out@.contains(j) ==> j < k,
                        p <= out@.len(),
                        forall|q: int| 0 <= q < p ==> score_of_style(self.view()[#[trigger] out@[q] as int]) >= sk,
                        found ==> p < out@.len() && score_of_style(self.view()[out@[p as int] as int]) < sk,
                    decreases out@.len() - p + (if found { 0int } else { 1int }),
                {
                    let q = out[p];
                    proof {
                        assert(out@.contains(q));
                        assert(scores_of(self.view()[q as int].selector) <= u32::MAX);
                    }
                    if self.get(q).score() >= sk {
                        p = p + 1;
                    } else {
                        found = true;
                    }
                }
                proof {
                    let ov = out@;
                    assert forall|q: int| p <= q < ov.len() implies score_of_style(self.view()[#[trigger] ov[q] as int]) < sk by {
                        if q > p {
                            assert(ranks_before(self.view(), ov[p as int] as int, ov[q] as int));
                        }
                    }
                    assert forall|q: int| 0 <= q < ov.len() implies #[trigger] ov[q] < k by {
                        assert(ov.contains(ov[q]));
                    }
                    lemma_insert_in_order(self.view(), ov, p as int, k);
                }
                let ghost before = out@;
                out.insert(p, k);
                proof {
                    assert forall|j: usize| #[trigger] out@.contains(j) <==> (j < k + 1 && base_selector_holds(
                        tree@,
                        el as int,
                        self.view()[j as int].selector,
                    )) by {
                        if out@.contains(j) {
                            let q = choose|q: int| 0 <= q < out@.len() && out@[q] == j;
                            if q < p {
                                assert(before[q] == j && before.contains(j));
                            } else if q > p {
                                assert(before[q - 1] == j && before.contains(j));
                            }
                        }
                        if j < k + 1 && base_selector_holds(tree@, el as int, self.view()[j as int].selector) {
                            if j == k {
                                assert(out@[p as int] == k);
                            } else {
                                assert(before.contains(j));
                                let q = choose|q: int| 0 <= q < before.len() && before[q] == j;
                                if q < p {
                                    assert(out@[q] == j);
                                } else {
                                    assert(out@[q + 1] == j);
                                }
                            }
                        }
                    }
                }
            }
            k = k + 1;
        }
        out
    }
}

/// The best style for a color sets that color.
proof fn lemma_best_color_sets(sheet: Seq<StyleView>, nb: int, t: Seq<ElementNode>, el: int, f: StyleColor, k: int)
    ensures
        best_color_style(sheet, nb, t, el, f, k) matches Some(i) ==> 0 <= i < k && color_of(sheet[i], f) is Some,
    decreases k,
{
    if k > 0 {
        lemma_best_color_sets(sheet, nb, t, el, f, k - 1);
    }
}

/// Style `i` applies to `el` and sets `f`.
pub open spec fn color_candidate(sheet: Seq<StyleView>, nb: int, t: Seq<ElementNode>, el: int, f: StyleColor, i: int) -> bool {
    style_applies(sheet, nb, t, el, i) && color_of(sheet[i], f) is Some
}

/// Style `i` is, among the first `k`, the first of those candidates that
/// have the highest score.
pub open spec fn first_best(sheet: Seq<StyleView>, nb: int, t: Seq<ElementNode>, el: int, f: StyleColor, k: int, i: int) -> bool {
    &&& 0 <= i < k
    &&& color_candidate(sheet, nb, t, el, f, i)
    &&& forall|j: int|
        0 <= j < k && color_candidate(sheet, nb, t, el, f, j) ==> score_of_style(#[trigger] sheet[j]) <= score_of_style(
            sheet[i],
        )
    &&& forall|j: int|
        0 <= j < i && color_candidate(sheet, nb, t, el, f, j) ==> score_of_style(#[trigger] sheet[j]) < score_of_style(
            sheet[i],
        )
}

proof fn lemma_best_color_first(sheet: Seq<StyleView>, nb: int, t: Seq<ElementNode>, el: int, f: StyleColor, k: int)
    requires
        0 <= k <= sheet.len(),
    ensures
        match best_color_style(sheet, nb, t, el, f, k) {
            Some(i) => first_best(sheet, nb, t, el, f, k, i),
            None => forall|j: int| 0 <= j < k ==> !color_candidate(sheet, nb, t, el, f, j),
        },
    decreases k,
{
    if k > 0 {
        lemma_best_color_first(sheet, nb, t, el, f, k - 1);
    }
}

proof fn lemma_first_best_unique(
    sheet: Seq<StyleView>, nb: int,
    t: Seq<ElementNode>,
    el: int,
    f: StyleColor,
    i: int,
)
    requires
        first_best(sheet, nb, t, el, f, sheet.len() as int, i),
    ensures
        best_color_style(sheet, nb, t, el, f, sheet.len() as int) == Some(i),
{
    let n = sheet.len() as int;
    lemma_best_color_first(sheet, nb, t, el, f, n);
    match best_color_style(sheet, nb, t, el, f, n) {
        Some(i2) => {
            if i2 < i {
                assert(score_of_style(sheet[i2]) < score_of_style(sheet[i]));
            } else if i < i2 {
                assert(score_of_style(sheet[i]) < score_of_style(sheet[i2]));
            }
        },
        None => {
            assert(!color_candidate(sheet, nb, t, el, f, i));
        },
    }
}

/// A stable sort of the sheet is, with the element's own style after it, a
/// stable rearrangement of the styles that can decide for the element, which
/// keeps the sheet's styles among the sheet's.
proof fn lemma_stable_for(r: Seq<StyleView>, s: Seq<StyleView>, t: Seq<ElementNode>, el: int) -> (p2: Seq<int>)
    requires
        stably_sorted(r, s),
    ensures
        styles_for(r, t, el).len() == styles_for(s, t, el).len(),
        is_permutation(p2, styles_for(s, t, el).len() as int),
        forall|k: int| 0 <= k < styles_for(r, t, el).len() ==> #[trigger] styles_for(r, t, el)[k] == styles_for(s, t, el)[p2[k]],
        forall|k: int| 0 <= k < styles_for(r, t, el).len() ==> (k < r.len() <==> #[trigger] p2[k] < r.len()),
        forall|a: int, b: int|
            0 <= a < b < styles_for(r, t, el).len() && score_of_style(styles_for(r, t, el)[a]) == score_of_style(
                styles_for(r, t, el)[b],
            ) ==> #[trigger] p2[a] < #[trigger] p2[b],
{
    let n = s.len() as int;
    let p = choose|p: Seq<int>|
        {
            &&& is_permutation(p, s.len() as int)
            &&& forall|k: int| 0 <= k < r.len() ==> #[trigger] r[k] == s[p[k]]
            &&& forall|a: int, b: int|
                0 <= a < b < r.len() && score_of_style(r[a]) == score_of_style(r[b]) ==> #[trigger] p[a]
                    < #[trigger] p[b]
        };
    if 0 <= el < t.len() && t[el].local_style is Some {
        let p2 = p.push(n);
        assert forall|v: int| 0 <= v < n + 1 implies #[trigger] takes_value(p2, v) by {
            if v < n {
                assert(takes_value(p, v));
                let k = choose|k: int| 0 <= k < p.len() && #[trigger] p[k] == v;
                assert(p2[k] == v);
            } else {
                assert(p2[n] == v);
            }
        }
        assert forall|a: int, b: int| 0 <= a < b < n + 1 implies #[trigger] p2[a] != #[trigger] p2[b] by {
            if b < n {
                assert(p2[a] == p[a] && p2[b] == p[b]);
            } else {
                assert(p2[a] == p[a]);
            }
        }
        assert forall|k: int| 0 <= k < n + 1 implies 0 <= #[trigger] p2[k] < n + 1 by {
            if k < n {
                assert(p2[k] == p[k]);
            }
        }
        assert forall|a: int, b: int|
            0 <= a < b < n + 1 && score_of_style(styles_for(r, t, el)[a]) == score_of_style(
                styles_for(r, t, el)[b],
            ) implies #[trigger] p2[a] < #[trigger] p2[b] by {
            if b < n {
                assert(styles_for(r, t, el)[a] == r[a] && styles_for(r, t, el)[b] == r[b]);
            }
        }
        assert forall|k: int| 0 <= k < n + 1 implies #[trigger] styles_for(r, t, el)[k] == styles_for(s, t, el)[p2[k]] by {
            if k < n {
                assert(p2[k] == p[k]);
            }
        }
        p2
    } else {
        p
    }
}

/// Ordering a sheet by score with a stable sort does not change the color any
/// element ends up with.
pub proof fn lemma_sort_keeps_computed_color(
    r: Seq<StyleView>,
    s: Seq<StyleView>,
    t: Seq<ElementNode>,
    el: int,
    f: StyleColor,
)
    requires
        stably_sorted(r, s),
    ensures
        computed_color(r, t, el, f) == computed_color(s, t, el, f),
    decreases el + 1,
{
    let nb = s.len() as int;
    let r2 = styles_for(r, t, el);
    let s2 = styles_for(s, t, el);
    let p = lemma_stable_for(r, s, t, el);
    let n = s2.len() as int;
    assert forall|k: int| 0 <= k < n implies #[trigger] color_candidate(r2, nb, t, el, f, k) == color_candidate(
        s2,
        nb,
        t,
        el,
        f,
        p[k],
    ) by {
        assert(r2[k] == s2[p[k]]);
    }
    lemma_best_color_first(s2, nb, t, el, f, n);
    match best_color_style(s2, nb, t, el, f, n) {
        Some(i) => {
            assert(takes_value(p, i));
            let k = choose|k: int| 0 <= k < p.len() && #[trigger] p[k] == i;
            assert(r2[k] == s2[i]);
            assert forall|j: int| 0 <= j < n && color_candidate(r2, nb, t, el, f, j) implies score_of_style(
                #[trigger] r2[j],
            ) <= score_of_style(r2[k]) by {
                assert(r2[j] == s2[p[j]]);
                assert(color_candidate(s2, nb, t, el, f, p[j]));
            }
            assert forall|j: int| 0 <= j < k && color_candidate(r2, nb, t, el, f, j) implies score_of_style(
                #[trigger] r2[j],
            ) < score_of_style(r2[k]) by {
                assert(r2[j] == s2[p[j]]);
                assert(color_candidate(s2, nb, t, el, f, p[j]));
                if score_of_style(r2[j]) == score_of_style(r2[k]) {
                    assert(p[j] < p[k]);
                    assert(score_of_style(s2[p[j]]) < score_of_style(s2[i]));
                }
            }
            assert(first_best(r2, nb, t, el, f, n, k));
            lemma_first_best_unique(r2, nb, t, el, f, k);
        },
        None => {
            lemma_best_color_first(r2, nb, t, el, f, n);
            if best_color_style(r2, nb, t, el, f, n) is Some {
                let k = best_color_style(r2, nb, t, el, f, n)->Some_0;
                assert(color_candidate(r2, nb, t, el, f, k));
                assert(color_candidate(s2, nb, t, el, f, p[k]));
            }
            if 0 <= el < t.len() && t[el].parent is Some && t[el].parent->Some_0 < el {
                lemma_sort_keeps_computed_color(r, s, t, t[el].parent->Some_0 as int, f);
            }
        },
    }
}

/// Style `i` applies to `el` and sets a border.
pub open spec fn border_candidate(sheet: Seq<StyleView>, nb: int, t: Seq<ElementNode>, el: int, i: int) -> bool {
    style_applies(sheet, nb, t, el, i) && sheet[i].border is Some
}

/// Style `i` is, among the first `k`, the first of those candidates that
/// have the highest score.
pub open spec fn first_best_border(sheet: Seq<StyleView>, nb: int, t: Seq<ElementNode>, el: int, k: int, i: int) -> bool {
    &&& 0 <= i < k
    &&& border_candidate(sheet, nb, t, el, i)
    &&& forall|j: int|
        0 <= j < k && border_candidate(sheet, nb, t, el, j) ==> score_of_style(#[trigger] sheet[j]) <= score_of_style(
            sheet[i],
        )
    &&& forall|j: int|
        0 <= j < i && border_candidate(sheet, nb, t, el, j) ==> score_of_style(#[trigger] sheet[j]) < score_of_style(
            sheet[i],
        )
}

proof fn lemma_best_border_first(sheet: Seq<StyleView>, nb: int, t: Seq<ElementNode>, el: int, k: int)
    requires
        0 <= k <= sheet.len(),
    ensures
        match best_border_style(sheet, nb, t, el, k) {
            Some(i) => first_best_border(sheet, nb, t, el, k, i),
            None => forall|j: int| 0 <= j < k ==> !border_candidate(sheet, nb, t, el, j),
        },
    decreases k,
{
    if k > 0 {
        lemma_best_border_first(sheet, nb, t, el, k - 1);
    }
}

proof fn lemma_first_best_border_unique(
    sheet: Seq<StyleView>, nb: int,
    t: Seq<ElementNode>,
    el: int,
    i: int,
)
    requires
        first_best_border(sheet, nb, t, el, sheet.len() as int, i),
    ensures
        best_border_style(sheet, nb, t, el, sheet.len() as int) == Some(i),
{
    let n = sheet.len() as int;
    lemma_best_border_first(sheet, nb, t, el, n);
    match best_border_style(sheet, nb, t, el, n) {
        Some(i2) => {
            if i2 < i {
                assert(score_of_style(sheet[i2]) < score_of_style(sheet[i]));
            } else if i < i2 {
                assert(score_of_style(sheet[i]) < score_of_style(sheet[i2]));
            }
        },
        None => {
            assert(!border_candidate(sheet, nb, t, el, i));
        },
    }
}

/// Ordering a sheet by score with a stable sort does not change the border
/// any element ends up with.
pub proof fn lemma_sort_keeps_computed_border(
    r: Seq<StyleView>,
    s: Seq<StyleView>,
    t: Seq<ElementNode>,
    el: int,
)
    requires
        stably_sorted(r, s),
    ensures
        computed_border(r, t, el) == computed_border(s, t, el),
    decreases el + 1,
{
    let nb = s.len() as int;
    let r2 = styles_for(r, t, el);
    let s2 = styles_for(s, t, el);
    let p = lemma_stable_for(r, s, t, el);
    let n = s2.len() as int;
    assert forall|k: int| 0 <= k < n implies #[trigger] border_candidate(r2, nb, t, el, k) == border_candidate(
        s2,
        nb,
        t,
        el,
        p[k],
    ) by {
        assert(r2[k] == s2[p[k]]);
    }
    lemma_best_border_first(s2, nb, t, el, n);
    match best_border_style(s2, nb, t, el, n) {
        Some(i) => {
            assert(takes_value(p, i));
            let k = choose|k: int| 0 <= k < p.len() && #[trigger] p[k] == i;
            assert(r2[k] == s2[i]);
            assert forall|j: int| 0 <= j < n && border_candidate(r2, nb, t, el, j) implies score_of_style(
                #[trigger] r2[j],
            ) <= score_of_style(r2[k]) by {
                assert(r2[j] == s2[p[j]]);
                assert(border_candidate(s2, nb, t, el, p[j]));
            }
            assert forall|j: int| 0 <= j < k && border_candidate(r2, nb, t, el, j) implies score_of_style(
                #[trigger] r2[j],
            ) < score_of_style(r2[k]) by {
                assert(r2[j] == s2[p[j]]);
                assert(border_candidate(s2, nb, t, el, p[j]));
                if score_of_style(r2[j]) == score_of_style(r2[k]) {
                    assert(p[j] < p[k]);
                    assert(score_of_style(s2[p[j]]) < score_of_style(s2[i]));
                }
            }
            assert(first_best_border(r2, nb, t, el, n, k));
            lemma_first_best_border_unique(r2, nb, t, el, k);
        },
        None => {
            lemma_best_border_first(r2, nb, t, el, n);
            if best_border_style(r2, nb, t, el, n) is Some {
                let k = best_border_style(r2, nb, t, el, n)->Some_0;
                assert(border_candidate(r2, nb, t, el, k));
                assert(border_candidate(s2, nb, t, el, p[k]));
            }
            if 0 <= el < t.len() && t[el].parent is Some && t[el].parent->Some_0 < el {
                lemma_sort_keeps_computed_border(r, s, t, t[el].parent->Some_0 as int);
            }
        },
    }
}

/// The root, when no style that can decide for it sets color `f`, ends up
/// with black for the backgrounds (`Bg`, `BorderBg`) and white for the
/// foregrounds (`Fg`, `BorderFg`, `AccentFg`).
pub proof fn lemma_default_colors(sheet: Seq<StyleView>, t: Seq<ElementNode>, el: int, f: StyleColor)
    requires
        0 <= el < t.len(),
        t[el].parent is None,
        forall|i: int|
            0 <= i < styles_for(sheet, t, el).len() ==> !#[trigger] color_candidate(
                styles_for(sheet, t, el),
                sheet.len() as int,
                t,
                el,
                f,
                i,
            ),
    ensures
        computed_color(sheet, t, el, f) == (if f == StyleColor::Bg || f == StyleColor::BorderBg {
            RGBA(0, 0, 0, 255)
        } else {
            RGBA(255, 255, 255, 255)
        }),
{
    let st = styles_for(sheet, t, el);
    lemma_best_color_first(st, sheet.len() as int, t, el, f, st.len() as int);
}

/// An element with a parent, when no style that can decide for it sets color
/// `f`, ends up with its parent's color.
pub proof fn lemma_inherited_color(sheet: Seq<StyleView>, t: Seq<ElementNode>, el: int, f: StyleColor)
    requires
        tree_wf(t),
        0 <= el < t.len(),
        t[el].parent is Some,
        forall|i: int|
            0 <= i < styles_for(sheet, t, el).len() ==> !#[trigger] color_candidate(
                styles_for(sheet, t, el),
                sheet.len() as int,
                t,
                el,
                f,
                i,
            ),
    ensures
        computed_color(sheet, t, el, f) == computed_color(sheet, t, t[el].parent->Some_0 as int, f),
{
    assert(node_wf(t, el));
    let st = styles_for(sheet, t, el);
    lemma_best_color_first(st, sheet.len() as int, t, el, f, st.len() as int);
}

/// When the best-scoring style that applies to an element sets color `f`,
/// the element gets that color: the first style of the highest score among
/// those that apply and set `f`.
pub proof fn lemma_best_style_decides(sheet: Seq<StyleView>, t: Seq<ElementNode>, el: int, f: StyleColor, i: int)
    requires
        0 <= i < styles_for(sheet, t, el).len(),
        color_candidate(styles_for(sheet, t, el), sheet.len() as int, t, el, f, i),
        forall|j: int|
            0 <= j < styles_for(sheet, t, el).len() && color_candidate(
                styles_for(sheet, t, el),
                sheet.len() as int,
                t,
                el,
                f,
                j,
            ) ==> score_of_style(#[trigger] styles_for(sheet, t, el)[j]) <= score_of_style(
                styles_for(sheet, t, el)[i],
            ),
        forall|j: int|
            0 <= j < i && color_candidate(styles_for(sheet, t, el), sheet.len() as int, t, el, f, j)
                ==> score_of_style(#[trigger] styles_for(sheet, t, el)[j]) < score_of_style(
                styles_for(sheet, t, el)[i],
            ),
    ensures
        computed_color(sheet, t, el, f) == color_of(styles_for(sheet, t, el)[i], f)->Some_0,
{
    let st = styles_for(sheet, t, el);
    assert(first_best(st, sheet.len() as int, t, el, f, st.len() as int, i));
    lemma_first_best_unique(st, sheet.len() as int, t, el, f, i);
}

/// The root, when no style that can decide for it sets a border, has no
/// border; an element with a parent, in that case, has its parent's.
pub proof fn lemma_default_border(sheet: Seq<StyleView>, t: Seq<ElementNode>, el: int)
    requires
        tree_wf(t),
        0 <= el < t.len(),
        forall|i: int|
            0 <= i < styles_for(sheet, t, el).len() ==> !#[trigger] border_candidate(
                styles_for(sheet, t, el),
                sheet.len() as int,
                t,
                el,
                i,
            ),
    ensures
        t[el].parent is None ==> computed_border(sheet, t, el) is None,
        t[el].parent matches Some(p) ==> computed_border(sheet, t, el) == computed_border(sheet, t, p as int),
{
    assert(node_wf(t, el));
    let st = styles_for(sheet, t, el);
    lemma_best_border_first(st, sheet.len() as int, t, el, st.len() as int);
}

} // verus!
