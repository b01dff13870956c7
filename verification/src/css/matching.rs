//! Which elements of a tree a selector picks out.
use crate::css::selector::{prop_matcher, view_matcher, view_matchers, Matcher, MatcherView, Selector};
use crate::text::has_prefix;
use crate::ui::element::{node_wf, position_of, str_set, tree_wf, ElementNode, ElementTree};
use vstd::prelude::*;

verus! {

/// Whether matcher `m` holds of element `i` of the tree `t`.
pub open spec fn matcher_holds(t: Seq<ElementNode>, i: int, m: MatcherView) -> bool
    decreases m, 0int,
{
    if !(0 <= i < t.len()) {
        false
    } else {
        let n = t[i];
        match m {
            MatcherView::All => true,
            MatcherView::Local => true,
            MatcherView::Id(id) => n.id matches Some(s) && s@ == id,
            MatcherView::Tag(tag) => n.tag@ == tag,
            MatcherView::Class(c) => str_set(n.classes@).contains(c),
            MatcherView::NotClass(c) => !str_set(n.classes@).contains(c),
            MatcherView::Prop(p) => str_set(n.props@).contains(p),
            MatcherView::NotProp(p) => !str_set(n.props@).contains(p),
            MatcherView::Empty => n.children@.len() == 0,
            MatcherView::FirstChild => match n.parent {
                Some(p) => p < t.len() && t[p as int].children@.len() > 0 && t[p as int].children@[0]
                    == i as usize,
                None => false,
            },
            MatcherView::LastChild => match n.parent {
                Some(p) => p < t.len() && t[p as int].children@.len() > 0
                    && t[p as int].children@.last() == i as usize,
                None => false,
            },
            MatcherView::OnlyChild => match n.parent {
                Some(p) => p < t.len() && t[p as int].children@.len() == 1,
                None => false,
            },
            MatcherView::Even => match n.parent {
                Some(p) => p < t.len() && (position_of(t[p as int].children@, i as usize) matches Some(
                    k,
                ) && k % 2 == 0),
                None => false,
            },
            MatcherView::Odd => match n.parent {
                Some(p) => p < t.len() && (position_of(t[p as int].children@, i as usize) matches Some(
                    k,
                ) && k % 2 == 1),
                None => false,
            },
            MatcherView::Current(ms) => selector_holds(t, i, ms),
            MatcherView::Parent(ms) => match n.parent {
                Some(p) => selector_holds(t, p as int, ms),
                None => false,
            },
            MatcherView::Ancestor(ms) => ancestor_holds(t, i, ms),
        }
    }
}

/// Whether every matcher of `ms` holds of element `i`.
pub open spec fn selector_holds(t: Seq<ElementNode>, i: int, ms: Seq<MatcherView>) -> bool
    decreases ms, 0int,
{
    if ms.len() == 0 {
        true
    } else {
        selector_holds(t, i, ms.subrange(0, ms.len() - 1)) && matcher_holds(t, i, ms[ms.len() - 1])
    }
}

/// Whether `ms` holds of some ancestor of element `i`.
pub open spec fn ancestor_holds(t: Seq<ElementNode>, i: int, ms: Seq<MatcherView>) -> bool
    decreases ms, i + 1,
{
    if !(0 <= i < t.len()) {
        false
    } else {
        match t[i].parent {
            Some(p) => if p < i {
                selector_holds(t, p as int, ms) || ancestor_holds(t, p as int, ms)
            } else {
                false
            },
            None => false,
        }
    }
}

/// A selector holds exactly when each of its matchers does.
pub proof fn lemma_selector_all(t: Seq<ElementNode>, i: int, ms: Seq<MatcherView>)
    ensures
        selector_holds(t, i, ms) == (forall|k: int|
            0 <= k < ms.len() ==> #[trigger] matcher_holds(t, i, ms[k])),
    decreases ms.len(),
{
    if ms.len() > 0 {
        let front = ms.subrange(0, ms.len() - 1);
        lemma_selector_all(t, i, front);
        if selector_holds(t, i, ms) {
            assert forall|k: int| 0 <= k < ms.len() implies #[trigger] matcher_holds(t, i, ms[k]) by {
                if k < ms.len() - 1 {
                    assert(front[k] == ms[k]);
                }
            }
        }
        if forall|k: int| 0 <= k < ms.len() ==> #[trigger] matcher_holds(t, i, ms[k]) {
            assert forall|k: int| 0 <= k < front.len() implies #[trigger] matcher_holds(
                t,
                i,
                front[k],
            ) by {
                assert(front[k] == ms[k]);
                assert(matcher_holds(t, i, ms[k]));
            }
            assert(matcher_holds(t, i, ms[ms.len() - 1]));
        }
    }
}

/// The view of a vector of matchers is, entry by entry, the view of each.
pub proof fn lemma_view_index(ms: Seq<Matcher>)
    ensures
        view_matchers(ms).len() == ms.len(),
        forall|k: int| 0 <= k < ms.len() ==> #[trigger] view_matchers(ms)[k] == view_matcher(ms[k]),
    decreases ms.len(),
{
    if ms.len() > 0 {
        let front = ms.subrange(0, ms.len() - 1);
        lemma_view_index(front);
        assert forall|k: int| 0 <= k < ms.len() implies #[trigger] view_matchers(ms)[k]
            == view_matcher(ms[k]) by {
            if k < ms.len() - 1 {
                assert(front[k] == ms[k]);
            }
        }
    }
}

impl Matcher {
    /// Whether the matcher holds of element `el`.
    pub fn matches(&self, tree: &ElementTree, el: usize) -> (r: bool)
        requires
            tree.wf(),
            tree.valid(el),
        ensures
            r == matcher_holds(tree@, el as int, view_matcher(*self)),
        decreases self,
    {
        proof {
            assert(node_wf(tree@, el as int));
        }
        match self {
            Matcher::All => true,
            Matcher::Local => true,
            Matcher::Id(id) => tree.has_id(el, id.as_str()),
            Matcher::Tag(tag) => tree.has_tag(el, tag.as_str()),
            Matcher::Class(class) => tree.has_class(el, class.as_str()),
            Matcher::NotClass(class) => !tree.has_class(el, class.as_str()),
            Matcher::Prop(prop) => tree.has_prop(el, prop.as_str()),
            Matcher::NotProp(prop) => !tree.has_prop(el, prop.as_str()),
            Matcher::Empty => tree.child_count(el) == 0,
            Matcher::FirstChild => match tree.parent(el) {
                None => false,
                Some(parent) => match tree.first_child(parent) {
                    None => false,
                    Some(first) => first == el,
                },
            },
            Matcher::LastChild => match tree.parent(el) {
                None => false,
                Some(parent) => match tree.last_child(parent) {
                    None => false,
                    Some(last) => last == el,
                },
            },
            Matcher::OnlyChild => match tree.parent(el) {
                None => false,
                Some(parent) => tree.child_count(parent) == 1,
            },
            Matcher::Even => match tree.parent(el) {
                None => false,
                Some(parent) => match tree.child_position(parent, el) {
                    None => false,
                    Some(n) => n % 2 == 0,
                },
            },
            Matcher::Odd => match tree.parent(el) {
                None => false,
                Some(parent) => match tree.child_position(parent, el) {
                    None => false,
                    Some(n) => n % 2 == 1,
                },
            },
            Matcher::Current(selector) => selector.matches(tree, el),
            Matcher::Parent(selector) => match tree.parent(el) {
                None => false,
                Some(parent) => selector.matches(tree, parent),
            },
            Matcher::Ancestor(selector) => {
                let ghost t = tree@;
                let ghost ms = selector.view();
                let mut parent = tree.parent(el);
                loop
                    invariant
                        tree.wf(),
                        tree.valid(el),
                        t == tree@,
                        ms == selector.view(),
                        *self == Matcher::Ancestor(*selector),
                        parent matches Some(p) ==> p < t.len(),
                        ancestor_holds(t, el as int, ms) == match parent {
                            Some(p) => selector_holds(t, p as int, ms) || ancestor_holds(
                                t,
                                p as int,
                                ms,
                            ),
                            None => false,
                        },
                    decreases match parent {
                        Some(p) => p + 1,
                        None => 0,
                    },
                {
                    match parent {
                        None => return false,
                        Some(parent_el) => {
                            if selector.matches(tree, parent_el) {
                                return true;
                            }
                            proof {
                                assert(node_wf(t, parent_el as int));
                            }
                            parent = tree.parent(parent_el);
                        },
                    }
                }
            },
        }
    }
}

impl Selector {
    /// Whether every matcher of the selector holds of element `el`.
    pub fn matches(&self, tree: &ElementTree, el: usize) -> (r: bool)
        requires
            tree.wf(),
            tree.valid(el),
        ensures
            r == selector_holds(tree@, el as int, self.view()),
        decreases self,
    {
        let ghost ms = self.matchers@;
        proof {
            lemma_view_index(ms);
            lemma_selector_all(tree@, el as int, self.view());
        }
        let mut k: usize = 0;
        while k < self.matchers.len()
            invariant
                tree.wf(),
                tree.valid(el),
                ms == self.matchers@,
                k <= ms.len(),
                view_matchers(ms).len() == ms.len(),
                forall|j: int| 0 <= j < ms.len() ==> #[trigger] view_matchers(ms)[j] == view_matcher(ms[j]),
                forall|j: int| 0 <= j < k ==> matcher_holds(tree@, el as int, #[trigger] view_matchers(ms)[j]),
            decreases ms.len() - k,
        {
            if !self.matchers[k].matches(tree, el) {
                assert(!matcher_holds(tree@, el as int, view_matchers(ms)[k as int]));
                proof {
                    lemma_selector_all(tree@, el as int, self.view());
                }
                return false;
            }
            k = k + 1;
        }
        true
    }
}

/// Whether matcher `m` holds of element `i` on the structure of the tree
/// alone: classes and properties, which change as the user interacts, are
/// taken to hold, and `*` holds only of the root.
pub open spec fn base_matcher_holds(t: Seq<ElementNode>, i: int, m: MatcherView) -> bool
    decreases m, 0int,
{
    if !(0 <= i < t.len()) {
        false
    } else {
        let n = t[i];
        match m {
            MatcherView::All => n.parent is None,
            MatcherView::Local => true,
            MatcherView::Tag(tag) => n.tag@ == tag,
            MatcherView::Id(id) => n.id matches Some(s) && s@ == id,
            MatcherView::Prop(_) => true,
            MatcherView::Class(_) => true,
            MatcherView::NotClass(_) => true,
            MatcherView::NotProp(_) => true,
            MatcherView::Current(ms) => base_selector_holds(t, i, ms),
            MatcherView::Parent(ms) => match n.parent {
                Some(p) => base_selector_holds(t, p as int, ms),
                None => false,
            },
            MatcherView::Ancestor(ms) => base_ancestor_holds(t, i, ms),
            _ => matcher_holds(t, i, m),
        }
    }
}

/// Whether every matcher of `ms` holds of element `i` on structure alone.
pub open spec fn base_selector_holds(t: Seq<ElementNode>, i: int, ms: Seq<MatcherView>) -> bool
    decreases ms, 0int,
{
    if ms.len() == 0 {
        true
    } else {
        base_selector_holds(t, i, ms.subrange(0, ms.len() - 1)) && base_matcher_holds(
            t,
            i,
            ms[ms.len() - 1],
        )
    }
}

/// Whether `ms` holds of some ancestor of element `i` on structure alone.
pub open spec fn base_ancestor_holds(t: Seq<ElementNode>, i: int, ms: Seq<MatcherView>) -> bool
    decreases ms, i + 1,
{
    if !(0 <= i < t.len()) {
        false
    } else {
        match t[i].parent {
            Some(p) => if p < i {
                base_selector_holds(t, p as int, ms) || base_ancestor_holds(t, p as int, ms)
            } else {
                false
            },
            None => false,
        }
    }
}

/// A selector holds on structure exactly when each of its matchers does.
pub proof fn lemma_base_selector_all(t: Seq<ElementNode>, i: int, ms: Seq<MatcherView>)
    ensures
        base_selector_holds(t, i, ms) == (forall|k: int|
            0 <= k < ms.len() ==> #[trigger] base_matcher_holds(t, i, ms[k])),
    decreases ms.len(),
{
    if ms.len() > 0 {
        let front = ms.subrange(0, ms.len() - 1);
        lemma_base_selector_all(t, i, front);
        if base_selector_holds(t, i, ms) {
            assert forall|k: int| 0 <= k < ms.len() implies #[trigger] base_matcher_holds(
                t,
                i,
                ms[k],
            ) by {
                if k < ms.len() - 1 {
                    assert(front[k] == ms[k]);
                }
            }
        }
        if forall|k: int| 0 <= k < ms.len() ==> #[trigger] base_matcher_holds(t, i, ms[k]) {
            assert forall|k: int| 0 <= k < front.len() implies #[trigger] base_matcher_holds(
                t,
                i,
                front[k],
            ) by {
                assert(front[k] == ms[k]);
                assert(base_matcher_holds(t, i, ms[k]));
            }
            assert(base_matcher_holds(t, i, ms[ms.len() - 1]));
        }
    }
}

impl Matcher {
    /// Whether the matcher holds of element `el` on the structure of the tree
    /// alone.
    fn is_base_match(&self, tree: &ElementTree, el: usize) -> (r: bool)
        requires
            tree.wf(),
            tree.valid(el),
        ensures
            r == base_matcher_holds(tree@, el as int, view_matcher(*self)),
        decreases self,
    {
        proof {
            assert(node_wf(tree@, el as int));
        }
        match self {
            Matcher::All => tree.is_root(el),
            Matcher::Local => true,
            Matcher::Tag(tag) => tree.has_tag(el, tag.as_str()),
            Matcher::Id(id) => tree.has_id(el, id.as_str()),
            Matcher::Prop(_) => true,
            Matcher::Class(_) => true,
            Matcher::NotClass(_) => true,
            Matcher::NotProp(_) => true,
            Matcher::Empty => self.matches(tree, el),
            Matcher::FirstChild => self.matches(tree, el),
            Matcher::LastChild => self.matches(tree, el),
            Matcher::OnlyChild => self.matches(tree, el),
            Matcher::Even => self.matches(tree, el),
            Matcher::Odd => self.matches(tree, el),
            Matcher::Current(sel) => sel.is_base_match(tree, el),
            Matcher::Parent(sel) => match tree.parent(el) {
                None => false,
                Some(parent) => sel.is_base_match(tree, parent),
            },
            Matcher::Ancestor(sel) => {
                let ghost t = tree@;
                let ghost ms = sel.view();
                let mut current = tree.parent(el);
                let mut res = false;
                while res == false && current.is_some()
                    invariant
                        tree.wf(),
                        tree.valid(el),
                        t == tree@,
                        ms == sel.view(),
                        *self == Matcher::Ancestor(*sel),
                        current matches Some(p) ==> p < t.len(),
                        base_ancestor_holds(t, el as int, ms) == (res || match current {
                            Some(p) => base_selector_holds(t, p as int, ms) || base_ancestor_holds(
                                t,
                                p as int,
                                ms,
                            ),
                            None => false,
                        }),
                    decreases match current {
                        Some(p) => p + 1,
                        None => 0,
                    } + (if res { 0int } else { 1int }),
                {
                    let parent = current.unwrap();
                    proof {
                        assert(decreases_to!(*self => (*self)->Ancestor_0));
                    }
                    if sel.is_base_match(tree, parent) {
                        res = true;
                    }
                    proof {
                        assert(node_wf(t, parent as int));
                    }
                    current = tree.parent(parent);
                }
                res
            },
        }
    }
}

impl Selector {
    /// Whether the selector can hold of element `el` on the structure of the
    /// tree alone: tags, ids, the root and the places of elements among their
    /// siblings, with classes and properties taken to hold.
    pub fn is_base_match(&self, tree: &ElementTree, el: usize) -> (r: bool)
        requires
            tree.wf(),
            tree.valid(el),
        ensures
            r == base_selector_holds(tree@, el as int, self.view()),
        decreases self,
    {
        let ghost ms = self.matchers@;
        proof {
            lemma_view_index(ms);
        }
        let mut k: usize = 0;
        while k < self.matchers.len()
            invariant
                tree.wf(),
                tree.valid(el),
                ms == self.matchers@,
                k <= ms.len(),
                view_matchers(ms).len() == ms.len(),
                forall|j: int| 0 <= j < ms.len() ==> #[trigger] view_matchers(ms)[j] == view_matcher(ms[j]),
                forall|j: int|
                    0 <= j < k ==> base_matcher_holds(tree@, el as int, #[trigger] view_matchers(ms)[j]),
            decreases ms.len() - k,
        {
            if !self.matchers[k].is_base_match(tree, el) {
                assert(!base_matcher_holds(tree@, el as int, view_matchers(ms)[k as int]));
                proof {
                    lemma_base_selector_all(tree@, el as int, self.view());
                }
                return false;
            }
            k = k + 1;
        }
        proof {
            lemma_base_selector_all(tree@, el as int, self.view());
        }
        true
    }
}

/// In a list without repeats, the first place that holds an entry is its
/// place.
proof fn lemma_position_of_distinct(cs: Seq<usize>, k: int)
    requires
        cs.no_duplicates(),
        0 <= k < cs.len(),
    ensures
        position_of(cs, cs[k]) == Some(k),
    decreases cs.len(),
{
    if k > 0 {
        assert(cs[0] != cs[k]);
        let d = cs.drop_first();
        assert(d.no_duplicates()) by {
            assert forall|a: int, b: int| 0 <= a < d.len() && 0 <= b < d.len() && a != b implies d[a] != d[b] by {
                assert(d[a] == cs[a + 1] && d[b] == cs[b + 1]);
            }
        }
        assert(d[k - 1] == cs[k]);
        lemma_position_of_distinct(d, k - 1);
    }
}

/// The matchers of a child's place hold of the child at place `k` (counting
/// from zero) among the children of `p` by that place alone: `first-child` at
/// the first place, `last-child` at the last, `only-child` when it is the only
/// child, `even` at even places and `odd` at odd ones.
pub proof fn lemma_place_matchers(t: Seq<ElementNode>, p: int, k: int)
    requires
        tree_wf(t),
        0 <= p < t.len(),
        0 <= k < t[p].children@.len(),
    ensures
        matcher_holds(t, t[p].children@[k] as int, MatcherView::FirstChild) <==> k == 0,
        matcher_holds(t, t[p].children@[k] as int, MatcherView::LastChild) <==> k == t[p].children@.len() - 1,
        matcher_holds(t, t[p].children@[k] as int, MatcherView::OnlyChild) <==> t[p].children@.len() == 1,
        matcher_holds(t, t[p].children@[k] as int, MatcherView::Even) <==> k % 2 == 0,
        matcher_holds(t, t[p].children@[k] as int, MatcherView::Odd) <==> k % 2 == 1,
{
    let cs = t[p].children@;
    assert(node_wf(t, p));
    let c = cs[k];
    assert(p < c < t.len() && t[c as int].parent == Some(p as usize));
    lemma_position_of_distinct(cs, k);
    if k != 0 {
        assert(cs[0] != cs[k]);
    }
    if k != cs.len() - 1 {
        assert(cs[cs.len() - 1] != cs[k]);
    }
}

/// An element without a parent (the root) is no one's first, last, only, even
/// or odd child.
pub proof fn lemma_root_place_matchers(t: Seq<ElementNode>, i: int)
    requires
        0 <= i < t.len(),
        t[i].parent is None,
    ensures
        !matcher_holds(t, i, MatcherView::FirstChild),
        !matcher_holds(t, i, MatcherView::LastChild),
        !matcher_holds(t, i, MatcherView::OnlyChild),
        !matcher_holds(t, i, MatcherView::Even),
        !matcher_holds(t, i, MatcherView::Odd),
{
}

/// What a `:prop` text picks out among the children of `p`, for the child at
/// place `k`: `even` and `odd` by the parity of the place, `first-child` and
/// `last-child` the first and last child, `empty` a child without children,
/// and `unchecked`, `enabled` and `valid` a child without the property
/// `checked`, `disabled` or `invalid`.
pub proof fn lemma_prop_keywords(t: Seq<ElementNode>, p: int, k: int)
    requires
        tree_wf(t),
        0 <= p < t.len(),
        0 <= k < t[p].children@.len(),
    ensures
        matcher_holds(t, t[p].children@[k] as int, prop_matcher("even"@)) <==> k % 2 == 0,
        matcher_holds(t, t[p].children@[k] as int, prop_matcher("odd"@)) <==> k % 2 == 1,
        matcher_holds(t, t[p].children@[k] as int, prop_matcher("first-child"@)) <==> k == 0,
        matcher_holds(t, t[p].children@[k] as int, prop_matcher("last-child"@)) <==> k == t[p].children@.len()
            - 1,
        matcher_holds(t, t[p].children@[k] as int, prop_matcher("empty"@)) <==> t[t[p].children@[k] as int].children@.len()
            == 0,
        matcher_holds(t, t[p].children@[k] as int, prop_matcher("unchecked"@)) <==> !str_set(
            t[t[p].children@[k] as int].props@,
        ).contains("checked"@),
        matcher_holds(t, t[p].children@[k] as int, prop_matcher("enabled"@)) <==> !str_set(
            t[t[p].children@[k] as int].props@,
        ).contains("disabled"@),
        matcher_holds(t, t[p].children@[k] as int, prop_matcher("valid"@)) <==> !str_set(
            t[t[p].children@[k] as int].props@,
        ).contains("invalid"@),
{
    reveal_strlit("even");
    reveal_strlit("odd");
    reveal_strlit("first-child");
    reveal_strlit("last-child");
    reveal_strlit("empty");
    reveal_strlit("unchecked");
    reveal_strlit("enabled");
    reveal_strlit("valid");
    reveal_strlit("not(");
    assert("odd"@.len() != "even"@.len());
    assert(prop_matcher("odd"@) == MatcherView::Odd);
    assert("first-child"@.len() != "even"@.len() && "first-child"@.len() != "odd"@.len());
    assert(prop_matcher("first-child"@) == MatcherView::FirstChild);
    assert("last-child"@.len() != "even"@.len() && "last-child"@.len() != "odd"@.len() && "last-child"@.len()
        != "first-child"@.len());
    assert(prop_matcher("last-child"@) == MatcherView::LastChild);
    assert("empty"@.len() != "even"@.len() && "empty"@.len() != "odd"@.len() && "empty"@.len()
        != "first-child"@.len() && "empty"@.len() != "last-child"@.len());
    assert(prop_matcher("empty"@) == MatcherView::Empty);
    assert("unchecked"@[0] != "even"@[0] && "unchecked"@[0] != "odd"@[0] && "unchecked"@[0] != "first-child"@[0]
        && "unchecked"@[0] != "last-child"@[0] && "unchecked"@[0] != "empty"@[0]);
    assert(prop_matcher("unchecked"@) == MatcherView::NotProp("checked"@));
    assert("enabled"@.len() != "even"@.len() && "enabled"@.len() != "odd"@.len() && "enabled"@.len()
        != "first-child"@.len() && "enabled"@.len() != "last-child"@.len() && "enabled"@.len() != "empty"@.len()
        && "enabled"@.len() != "unchecked"@.len());
    assert(prop_matcher("enabled"@) == MatcherView::NotProp("disabled"@));
    assert("valid"@[0] != "even"@[0] && "valid"@[0] != "odd"@[0] && "valid"@[0] != "first-child"@[0]
        && "valid"@[0] != "last-child"@[0] && "valid"@[0] != "empty"@[0] && "valid"@[0] != "unchecked"@[0]
        && "valid"@[0] != "enabled"@[0]);
    assert(prop_matcher("valid"@) == MatcherView::NotProp("invalid"@));
    lemma_place_matchers(t, p, k);
    assert(node_wf(t, p));
    assert(t[p].children@[k] < t.len());
}

/// Any other `:prop` text (one that is none of the keywords and does not
/// start with `not(`) picks out the elements that have that property.
pub proof fn lemma_prop_name(t: Seq<ElementNode>, i: int, w: Seq<char>)
    requires
        0 <= i < t.len(),
        w != "even"@,
        w != "odd"@,
        w != "first-child"@,
        w != "last-child"@,
        w != "empty"@,
        w != "unchecked"@,
        w != "enabled"@,
        w != "valid"@,
        !has_prefix(w, "not("@),
    ensures
        matcher_holds(t, i, prop_matcher(w)) <==> str_set(t[i].props@).contains(w),
{
}

} // verus!
