//! Styles: a selector with the colors and border that it sets.
use crate::color::rgba::RGBA;
use crate::css::selector::{scores_of, view_matchers, Matcher, MatcherView, Selector};
use crate::css::matching::{base_selector_holds, selector_holds};
use crate::draw::BorderType;
use crate::ui::element::ElementTree;
use vstd::prelude::*;

verus! {

/// A style: what its selector matches gets the values that it sets.
pub struct Style {
    selector: Selector,
    fg: Option<RGBA>,
    bg: Option<RGBA>,
    border_fg: Option<RGBA>,
    border_bg: Option<RGBA>,
    border: Option<BorderType>,
    accent_fg: Option<RGBA>,
}

/// A style with its selector viewed.
pub struct StyleView {
    pub selector: Seq<MatcherView>,
    pub fg: Option<RGBA>,
    pub bg: Option<RGBA>,
    pub border_fg: Option<RGBA>,
    pub border_bg: Option<RGBA>,
    pub border: Option<BorderType>,
    pub accent_fg: Option<RGBA>,
}

/// A style that sets nothing.
pub open spec fn plain_style(selector: Seq<MatcherView>) -> StyleView {
    StyleView {
        selector,
        fg: None,
        bg: None,
        border_fg: None,
        border_bg: None,
        border: None,
        accent_fg: None,
    }
}

impl Style {
    /// The style, viewed.
    pub closed spec fn view(&self) -> StyleView {
        StyleView {
            selector: self.selector.view(),
            fg: self.fg,
            bg: self.bg,
            border_fg: self.border_fg,
            border_bg: self.border_bg,
            border: self.border,
            accent_fg: self.accent_fg,
        }
    }

    /// A style for `selector` that sets nothing yet.
    pub fn new(selector: Selector) -> (s: Style)
        ensures
            s.view() == plain_style(selector.view()),
    {
        Style {
            selector,
            fg: None,
            bg: None,
            border_fg: None,
            border_bg: None,
            border: None,
            accent_fg: None,
        }
    }

    /// A style for the local selector `$`.
    pub fn local() -> (s: Style)
        ensures
            s.view() == plain_style(seq![MatcherView::Local]),
    {
        let mut ms: Vec<Matcher> = Vec::new();
        ms.push(Matcher::Local);
        assert(ms@.subrange(0, 0) == Seq::<Matcher>::empty());
        assert(view_matchers(Seq::<Matcher>::empty()) == Seq::<MatcherView>::empty());
        assert(view_matchers(ms@) == view_matchers(ms@.subrange(0, 0)).push(
            crate::css::selector::view_matcher(Matcher::Local),
        ));
        assert(view_matchers(ms@) == seq![MatcherView::Local]);
        Style::new(Selector { matchers: ms })
    }

    /// How specific the style's selector is.
    pub fn score(&self) -> (r: u32)
        requires
            scores_of(self.view().selector) <= u32::MAX,
        ensures
            r == scores_of(self.view().selector),
    {
        self.selector.score()
    }

    /// The selector.
    pub fn selector(&self) -> (s: &Selector)
        ensures
            s.view() == self.view().selector,
    {
        &self.selector
    }

    /// The foreground color, if set.
    pub fn fg(&self) -> (c: Option<RGBA>)
        ensures
            c == self.view().fg,
    {
        self.fg
    }

    /// The background color, if set.
    pub fn bg(&self) -> (c: Option<RGBA>)
        ensures
            c == self.view().bg,
    {
        self.bg
    }

    /// The border foreground color, if set.
    pub fn border_fg(&self) -> (c: Option<RGBA>)
        ensures
            c == self.view().border_fg,
    {
        self.border_fg
    }

    /// The border background color, if set.
    pub fn border_bg(&self) -> (c: Option<RGBA>)
        ensures
            c == self.view().border_bg,
    {
        self.border_bg
    }

    /// The border, if set.
    pub fn border(&self) -> (b: Option<BorderType>)
        ensures
            b == self.view().border,
    {
        self.border
    }

    /// The accent foreground color, if set.
    pub fn accent_fg(&self) -> (c: Option<RGBA>)
        ensures
            c == self.view().accent_fg,
    {
        self.accent_fg
    }

    /// Sets the foreground color.
    pub fn set_fg(&mut self, fg: RGBA)
        ensures
            final(self).view() == (StyleView { fg: Some(fg), ..old(self).view() }),
    {
        self.fg = Some(fg);
    }

    /// Sets the background color.
    pub fn set_bg(&mut self, bg: RGBA)
        ensures
            final(self).view() == (StyleView { bg: Some(bg), ..old(self).view() }),
    {
        self.bg = Some(bg);
    }

    /// Sets the border foreground color.
    pub fn set_border_fg(&mut self, fg: RGBA)
        ensures
            final(self).view() == (StyleView { border_fg: Some(fg), ..old(self).view() }),
    {
        self.border_fg = Some(fg);
    }

    /// Sets the border background color.
    pub fn set_border_bg(&mut self, bg: RGBA)
        ensures
            final(self).view() == (StyleView { border_bg: Some(bg), ..old(self).view() }),
    {
        self.border_bg = Some(bg);
    }

    /// Sets (or clears) the border.
    pub fn set_border(&mut self, border: Option<BorderType>)
        ensures
            final(self).view() == (StyleView { border, ..old(self).view() }),
    {
        self.border = border;
    }

    /// Sets the accent foreground color.
    pub fn set_accent_fg(&mut self, fg: RGBA)
        ensures
            final(self).view() == (StyleView { accent_fg: Some(fg), ..old(self).view() }),
    {
        self.accent_fg = Some(fg);
    }
}

impl Style {
    /// Whether the style's selector matches element `el` of `tree`.
    pub fn matches(&self, tree: &ElementTree, el: usize) -> (r: bool)
        requires
            tree.wf(),
            tree.valid(el),
        ensures
            r == selector_holds(tree@, el as int, self.view().selector),
    {
        self.selector.matches(tree, el)
    }

    /// Whether the style's selector can match element `el` on the structure
    /// of the tree alone.
    pub fn is_base_match(&self, tree: &ElementTree, el: usize) -> (r: bool)
        requires
            tree.wf(),
            tree.valid(el),
        ensures
            r == base_selector_holds(tree@, el as int, self.view().selector),
    {
        self.selector.is_base_match(tree, el)
    }
}

} // verus!
