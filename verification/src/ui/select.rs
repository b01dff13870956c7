//! Choosing among the items of a select: moving the hover mark with the
//! arrow keys, checking the hovered item, and clicking an item. An item is
//! hovered when it has the property `hover` and chosen when it has `checked`;
//! a select with the property `multiple` lets several items be chosen.
use crate::text::text_is_empty;
use crate::value::key::{same_key, Key};
use crate::ui::element::{
    contains_point, geometry_fits, node_wf, rect_fits, str_set, toggled, tree_wf, ElementNode, ElementTree,
};
use vstd::prelude::*;

verus! {

/// The keys a select reacts to.
#[derive(PartialEq, Eq, Debug, Copy, Clone, Structural)]
pub enum SelectKey {
    /// Moves the hover mark to the item before (from the first, to the last).
    Up,
    /// Moves the hover mark to the item after (from the last, to the first).
    Down,
    /// Space or return: checks the hovered item (the first when none is).
    Activate,
    /// Any other key.
    Other,
}

/// The properties of the `k`-th child of `el`.
pub open spec fn child_props(t: Seq<ElementNode>, el: int, k: int) -> Set<Seq<char>> {
    str_set(t[t[el].children@[k] as int].props@)
}

/// The first of the first `n` children of `el` that has `prop`.
pub open spec fn first_with_prop(t: Seq<ElementNode>, el: int, prop: Seq<char>, n: int) -> Option<int>
    decreases n,
{
    if n <= 0 {
        None
    } else {
        match first_with_prop(t, el, prop, n - 1) {
            Some(k) => Some(k),
            None => if child_props(t, el, n - 1).contains(prop) {
                Some(n - 1)
            } else {
                None
            },
        }
    }
}

proof fn lemma_first_with_prop_bound(t: Seq<ElementNode>, el: int, prop: Seq<char>, j: int)
    ensures
        first_with_prop(t, el, prop, j) matches Some(k) ==> 0 <= k < j,
    decreases j,
{
    if j > 0 {
        lemma_first_with_prop_bound(t, el, prop, j - 1);
    }
}

proof fn lemma_first_with_prop(t: Seq<ElementNode>, el: int, prop: Seq<char>, j: int, n: int)
    requires
        0 <= j <= n,
    ensures
        first_with_prop(t, el, prop, j) matches Some(k) ==> 0 <= k < j && first_with_prop(t, el, prop, n)
            == Some(k),
    decreases n,
{
    lemma_first_with_prop_bound(t, el, prop, j);
    if j < n {
        lemma_first_with_prop(t, el, prop, j, n - 1);
    }
}

/// The first child of `el` that has `prop`.
pub open spec fn first_child_with(t: Seq<ElementNode>, el: int, prop: Seq<char>) -> Option<int> {
    first_with_prop(t, el, prop, t[el].children@.len() as int)
}

/// Tree `b` is tree `a` with at most the properties of children of `el`
/// changed.
pub open spec fn only_child_props_changed(a: Seq<ElementNode>, b: Seq<ElementNode>, el: int) -> bool {
    let cs = a[el].children@;
    &&& b.len() == a.len()
    &&& forall|i: int| 0 <= i < a.len() && !cs.contains(i as usize) ==> #[trigger] b[i] == a[i]
    &&& forall|k: int|
        0 <= k < cs.len() ==> #[trigger] b[cs[k] as int] == (ElementNode {
            props: b[cs[k] as int].props,
            ..a[cs[k] as int]
        })
}

proof fn lemma_only_changed_trans(a: Seq<ElementNode>, b: Seq<ElementNode>, c: Seq<ElementNode>, el: int)
    requires
        0 <= el < a.len(),
        only_child_props_changed(a, b, el),
        only_child_props_changed(b, c, el),
        !a[el].children@.contains(el as usize),
    ensures
        only_child_props_changed(a, c, el),
{
    assert(b[el] == a[el]);
}

/// The item the hover mark moves to.
pub open spec fn hover_target(t: Seq<ElementNode>, el: int, key: SelectKey) -> int {
    let n = t[el].children@.len() as int;
    match (key, first_child_with(t, el, "hover"@)) {
        (SelectKey::Up, None) => n - 1,
        (SelectKey::Up, Some(k)) => if k == 0 {
            n - 1
        } else {
            k - 1
        },
        (_, None) => 0,
        (_, Some(k)) => if k < n - 1 {
            k + 1
        } else {
            0
        },
    }
}

/// The item that space or return checks: the hovered one, else the first.
pub open spec fn activate_target(t: Seq<ElementNode>, el: int) -> int {
    match first_child_with(t, el, "hover"@) {
        Some(k) => k,
        None => 0,
    }
}

/// What a key does to the properties of the `k`-th item of select `el`.
pub open spec fn props_after_key(t: Seq<ElementNode>, el: int, key: SelectKey, k: int) -> Set<Seq<char>> {
    let p = child_props(t, el, k);
    let multiple = str_set(t[el].props@).contains("multiple"@);
    match key {
        SelectKey::Up | SelectKey::Down => if k == hover_target(t, el, key) {
            p.insert("hover"@)
        } else {
            p.remove("hover"@)
        },
        SelectKey::Activate => {
            let q = if multiple {
                p
            } else {
                p.remove("checked"@)
            };
            if k == activate_target(t, el) {
                toggled(q, "checked"@)
            } else {
                q
            }
        },
        SelectKey::Other => p,
    }
}

impl ElementTree {
    /// The position of the first child of `el` that has `prop`.
    pub fn first_child_with_prop(&self, el: usize, prop: &str) -> (r: Option<usize>)
        requires
            self.wf(),
            self.valid(el),
        ensures
            match r {
                Some(k) => first_child_with(self@, el as int, prop@) == Some(k as int),
                None => first_child_with(self@, el as int, prop@) is None,
            },
    {
        proof {
            assert(node_wf(self@, el as int));
        }
        let n = self.child_count(el);
        let mut k: usize = 0;
        while k < n
            invariant
                self.wf(),
                self.valid(el),
                node_wf(self@, el as int),
                n == self@[el as int].children@.len(),
                k <= n,
                first_with_prop(self@, el as int, prop@, k as int) is None,
            decreases n - k,
        {
            let c = self.children(el)[k];
            if self.has_prop(c, prop) {
                proof {
                    lemma_first_with_prop(self@, el as int, prop@, k + 1, n as int);
                }
                return Some(k);
            }
            k = k + 1;
        }
        None
    }

    /// Takes `prop` from every child of `el` except the one at position
    /// `keep`, if given.
    pub fn remove_prop_from_children(&mut self, el: usize, prop: &str, keep: Option<usize>)
        requires
            old(self).wf(),
            old(self).valid(el),
        ensures
            final(self).wf(),
            only_child_props_changed(old(self)@, final(self)@, el as int),
            forall|k: int|
                0 <= k < old(self)@[el as int].children@.len() ==> #[trigger] child_props(final(self)@, el as int, k)
                    == if keep == Some(k as usize) {
                    child_props(old(self)@, el as int, k)
                } else {
                    child_props(old(self)@, el as int, k).remove(prop@)
                },
    {
        let ghost t0 = self@;
        let ghost cs = t0[el as int].children@;
        proof {
            assert(node_wf(t0, el as int));
        }
        let n = self.child_count(el);
        let mut k: usize = 0;
        while k < n
            invariant
                self.wf(),
                self@.len() == t0.len(),
                0 <= el < t0.len(),
                node_wf(t0, el as int),
                cs == t0[el as int].children@,
                n == cs.len(),
                k <= n,
                self@[el as int] == t0[el as int],
                forall|i: int| 0 <= i < t0.len() && !cs.contains(i as usize) ==> #[trigger] self@[i] == t0[i],
                forall|j: int|
                    0 <= j < n ==> #[trigger] self@[cs[j] as int] == (ElementNode {
                        props: self@[cs[j] as int].props,
                        ..t0[cs[j] as int]
                    }),
                forall|j: int|
                    0 <= j < k ==> #[trigger] str_set(self@[cs[j] as int].props@) == if keep == Some(
                        j as usize,
                    ) {
                        str_set(t0[cs[j] as int].props@)
                    } else {
                        str_set(t0[cs[j] as int].props@).remove(prop@)
                    },
                forall|j: int| k <= j < n ==> #[trigger] self@[cs[j] as int] == t0[cs[j] as int],
            decreases n - k,
        {
            let c = self.children(el)[k];
            assert(c == cs[k as int]);
            assert(el < c < t0.len());
            if keep != Some(k) {
                let ghost before = self@;
                self.remove_prop(c, prop);
                proof {
                    assert forall|i: int| 0 <= i < t0.len() && !cs.contains(i as usize) implies #[trigger] self@[i]
                        == t0[i] by {
                        if i == c as int {
                            assert(cs[k as int] == c);
                        }
                    }
                    assert forall|j: int| 0 <= j < n && j != k implies #[trigger] self@[cs[j] as int]
                        == before[cs[j] as int] by {
                        assert(cs[j] != c);
                    }
                }
            }
            k = k + 1;
        }
    }

    /// Reacts to a key on select `el`: the arrows move the hover mark, space
    /// or return checks the hovered item (the first when none is hovered; a
    /// select without `multiple` first unchecks every item). Returns whether
    /// the key was used up (space or return).
    pub fn select_handle_key(&mut self, el: usize, key: SelectKey) -> (r: bool)
        requires
            old(self).wf(),
            old(self).valid(el),
            key != SelectKey::Other ==> old(self)@[el as int].children@.len() > 0,
        ensures
            final(self).wf(),
            r == (key == SelectKey::Activate),
            only_child_props_changed(old(self)@, final(self)@, el as int),
            forall|k: int|
                0 <= k < old(self)@[el as int].children@.len() ==> #[trigger] child_props(final(self)@, el as int, k)
                    == props_after_key(old(self)@, el as int, key, k),
    {
        let ghost t0 = self@;
        let ghost cs = t0[el as int].children@;
        proof {
            assert(node_wf(t0, el as int));
            reveal_strlit("hover");
        }
        let n = self.child_count(el);
        proof {
            lemma_first_with_prop(t0, el as int, "hover"@, n as int, n as int);
        }
        match key {
            SelectKey::Up | SelectKey::Down => {
                let target: usize = match self.first_child_with_prop(el, "hover") {
                    None => if key == SelectKey::Up {
                        n - 1
                    } else {
                        0
                    },
                    Some(idx) => if key == SelectKey::Up {
                        if idx == 0 {
                            n - 1
                        } else {
                            idx - 1
                        }
                    } else if idx < n - 1 {
                        idx + 1
                    } else {
                        0
                    },
                };
                assert(target == hover_target(t0, el as int, key));
                self.remove_prop_from_children(el, "hover", None);
                let ghost mid = self@;
                let c = self.children(el)[target];
                assert(c == cs[target as int]);
                self.add_prop(c, "hover");
                proof {
                    assert(only_child_props_changed(mid, self@, el as int)) by {
                        assert forall|i: int| 0 <= i < mid.len() && !cs.contains(i as usize) implies #[trigger] self@[i]
                            == mid[i] by {
                            if i == c as int {
                                assert(cs[target as int] == c);
                            }
                        }
                    }
                    lemma_only_changed_trans(t0, mid, self@, el as int);
                    assert("hover"@.len() > 0);
                    assert forall|k: int| 0 <= k < cs.len() implies #[trigger] child_props(self@, el as int, k)
                        == props_after_key(t0, el as int, key, k) by {
                        assert(child_props(mid, el as int, k) == child_props(t0, el as int, k).remove(
                            "hover"@,
                        ));
                        assert(mid[el as int] == t0[el as int]);
                        if k == target {
                            assert(child_props(self@, el as int, k) == child_props(mid, el as int, k).insert(
                                "hover"@,
                            ));
                            assert(child_props(t0, el as int, k).remove("hover"@).insert("hover"@)
                                =~= child_props(t0, el as int, k).insert("hover"@));
                        } else {
                            assert(cs[k] != c);
                            assert(self@[cs[k] as int] == mid[cs[k] as int]);
                        }
                    }
                }
                false
            },
            SelectKey::Activate => {
                let target: usize = match self.first_child_with_prop(el, "hover") {
                    None => 0,
                    Some(idx) => idx,
                };
                let multiple = self.has_prop(el, "multiple");
                if !multiple {
                    self.remove_prop_from_children(el, "checked", None);
                }
                let ghost mid = self@;
                let c = self.children(el)[target];
                assert(c == cs[target as int]);
                self.toggle_prop(c, "checked");
                proof {
                    reveal_strlit("checked");
                    assert(only_child_props_changed(mid, self@, el as int)) by {
                        assert forall|i: int| 0 <= i < mid.len() && !cs.contains(i as usize) implies #[trigger] self@[i]
                            == mid[i] by {
                            if i == c as int {
                                assert(cs[target as int] == c);
                            }
                        }
                    }
                    if !multiple {
                        lemma_only_changed_trans(t0, mid, self@, el as int);
                    } else {
                        assert(mid == t0);
                    }
                    assert(multiple == str_set(t0[el as int].props@).contains("multiple"@));
                    assert forall|k: int| 0 <= k < cs.len() implies #[trigger] child_props(self@, el as int, k)
                        == props_after_key(t0, el as int, key, k) by {
                        let q = if multiple {
                            child_props(t0, el as int, k)
                        } else {
                            child_props(t0, el as int, k).remove("checked"@)
                        };
                        assert(child_props(mid, el as int, k) == q);
                        assert(mid[el as int] == t0[el as int]);
                        if k != target {
                            assert(cs[k] != c);
                            assert(self@[cs[k] as int] == mid[cs[k] as int]);
                        } else {
                            assert(child_props(self@, el as int, k) == toggled(q, "checked"@));
                        }
                    }
                }
                true
            },
            SelectKey::Other => false,
        }
    }
}

/// The first of the first `n` children of `el` that contains `(x, y)`.
pub open spec fn first_child_at(t: Seq<ElementNode>, el: int, x: int, y: int, n: int) -> Option<int>
    decreases n,
{
    if n <= 0 {
        None
    } else {
        match first_child_at(t, el, x, y, n - 1) {
            Some(k) => Some(k),
            None => if contains_point(t[t[el].children@[n - 1] as int], x, y) {
                Some(n - 1)
            } else {
                None
            },
        }
    }
}

proof fn lemma_first_child_at(t: Seq<ElementNode>, el: int, x: int, y: int, j: int, n: int)
    requires
        0 <= j <= n,
    ensures
        first_child_at(t, el, x, y, j) matches Some(k) ==> 0 <= k < j && first_child_at(t, el, x, y, n)
            == Some(k),
    decreases n,
{
    lemma_first_child_at_bound(t, el, x, y, j);
    if j < n {
        lemma_first_child_at(t, el, x, y, j, n - 1);
    }
}

proof fn lemma_first_child_at_bound(t: Seq<ElementNode>, el: int, x: int, y: int, j: int)
    ensures
        first_child_at(t, el, x, y, j) matches Some(k) ==> 0 <= k < j,
    decreases j,
{
    if j > 0 {
        lemma_first_child_at_bound(t, el, x, y, j - 1);
    }
}

/// The item of select `el` that a click at `(x, y)` lands on, if the click
/// falls inside the select.
pub open spec fn clicked_item(t: Seq<ElementNode>, el: int, x: int, y: int) -> Option<int> {
    if contains_point(t[el], x, y) {
        first_child_at(t, el, x, y, t[el].children@.len() as int)
    } else {
        None
    }
}

/// What a click on item `c` does to the properties of the `k`-th item: the
/// hover mark moves to `c`, `c` is toggled, and (without `multiple`) every
/// other item is unchecked.
pub open spec fn props_after_click(t: Seq<ElementNode>, el: int, c: int, k: int) -> Set<Seq<char>> {
    let multiple = str_set(t[el].props@).contains("multiple"@);
    let p = child_props(t, el, k).remove("hover"@);
    let q = if multiple {
        p
    } else {
        p.remove("checked"@)
    };
    if k == c {
        toggled(q.insert("hover"@), "checked"@)
    } else {
        q
    }
}

/// What one checked item of a select stands for: its position, or its
/// value.
#[derive(Debug, PartialEq)]
pub enum ItemValue {
    Index(usize),
    Value(Key),
}

/// The value of a select: what its one checked item stands for, or, with
/// `multiple`, the list of what each checked item stands for.
#[derive(Debug, PartialEq)]
pub enum SelectValue {
    One(ItemValue),
    List(Vec<ItemValue>),
}

/// The size a select takes: that of its items plus its margins.
pub open spec fn select_size(n: ElementNode, children_size: (u32, u32)) -> (u32, u32) {
    (
        (children_size.0 + n.margin@[0] + n.margin@[2]) as u32,
        (children_size.1 + n.margin@[1] + n.margin@[3]) as u32,
    )
}

/// `v` is what the item at position `k` of select `el` stands for: the
/// position itself when `use_index`, else (a copy of) the item's value.
pub open spec fn stands_for(v: ItemValue, t: Seq<ElementNode>, el: int, k: usize, use_index: bool) -> bool {
    if use_index {
        v == ItemValue::Index(k)
    } else {
        match v {
            ItemValue::Value(key) => t[t[el].children@[k as int] as int].value matches Some(x) && same_key(x, key),
            ItemValue::Index(_) => false,
        }
    }
}

/// The inputs on which the value of select `el` can be read without
/// panicking: it has `index`, or every checked item has a value.
pub open spec fn select_value_ok(t: Seq<ElementNode>, el: int) -> bool {
    ||| str_set(t[el].props@).contains("index"@)
    ||| forall|k: int|
        0 <= k < t[el].children@.len() && #[trigger] child_props(t, el, k).contains("checked"@)
            ==> t[t[el].children@[k] as int].value is Some
}

/// The positions of the first `n` children of `el` that are checked.
pub open spec fn checked_items(t: Seq<ElementNode>, el: int, n: int) -> Seq<usize>
    decreases n,
{
    if n <= 0 {
        seq![]
    } else if child_props(t, el, n - 1).contains("checked"@) {
        checked_items(t, el, n - 1).push((n - 1) as usize)
    } else {
        checked_items(t, el, n - 1)
    }
}

impl ElementTree {
    /// The position of the first child of `el` that contains the point.
    fn first_child_at(&self, el: usize, point: (i32, i32)) -> (r: Option<usize>)
        requires
            self.wf(),
            self.valid(el),
            geometry_fits(self@),
        ensures
            match r {
                Some(k) => first_child_at(self@, el as int, point.0 as int, point.1 as int, self@[el as int].children@.len() as int)
                    == Some(k as int),
                None => first_child_at(self@, el as int, point.0 as int, point.1 as int, self@[el as int].children@.len() as int) is None,
            },
    {
        proof {
            assert(node_wf(self@, el as int));
        }
        let n = self.child_count(el);
        let mut k: usize = 0;
        while k < n
            invariant
                self.wf(),
                self.valid(el),
                geometry_fits(self@),
                node_wf(self@, el as int),
                n == self@[el as int].children@.len(),
                k <= n,
                first_child_at(self@, el as int, point.0 as int, point.1 as int, k as int) is None,
            decreases n - k,
        {
            let c = self.children(el)[k];
            assert(rect_fits(self@[c as int]));
            if self.contains(c, point) {
                proof {
                    lemma_first_child_at(self@, el as int, point.0 as int, point.1 as int, k + 1, n as int);
                }
                return Some(k);
            }
            k = k + 1;
        }
        None
    }

    /// Reacts to a click on select `el`: when it lands on an item, the hover
    /// mark moves to that item and the item is toggled (a select without
    /// `multiple` first unchecks every item). Returns whether the click landed
    /// on an item.
    pub fn select_handle_click(&mut self, el: usize, point: (i32, i32)) -> (r: bool)
        requires
            old(self).wf(),
            old(self).valid(el),
            geometry_fits(old(self)@),
        ensures
            final(self).wf(),
            r == clicked_item(old(self)@, el as int, point.0 as int, point.1 as int) is Some,
            only_child_props_changed(old(self)@, final(self)@, el as int),
            forall|k: int|
                0 <= k < old(self)@[el as int].children@.len() ==> #[trigger] child_props(final(self)@, el as int, k)
                    == match clicked_item(old(self)@, el as int, point.0 as int, point.1 as int) {
                    Some(c) => props_after_click(old(self)@, el as int, c, k),
                    None => child_props(old(self)@, el as int, k),
                },
    {
        let ghost t0 = self@;
        let ghost cs = t0[el as int].children@;
        proof {
            assert(node_wf(t0, el as int));
            assert(rect_fits(t0[el as int]));
            reveal_strlit("hover");
            reveal_strlit("checked");
        }
        if !self.contains(el, point) {
            return false;
        }
        let target = match self.first_child_at(el, point) {
            None => {
                return false;
            },
            Some(k) => k,
        };
        proof {
            lemma_first_child_at_bound(t0, el as int, point.0 as int, point.1 as int, cs.len() as int);
        }
        let multiple = self.has_prop(el, "multiple");
        self.remove_prop_from_children(el, "hover", None);
        let ghost mid1 = self@;
        if !multiple {
            self.remove_prop_from_children(el, "checked", None);
            proof {
                lemma_only_changed_trans(t0, mid1, self@, el as int);
            }
        }
        let ghost mid = self@;
        let c = self.children(el)[target];
        assert(c == cs[target as int]);
        self.add_prop(c, "hover");
        self.toggle_prop(c, "checked");
        proof {
            assert(only_child_props_changed(mid, self@, el as int)) by {
                assert forall|i: int| 0 <= i < mid.len() && !cs.contains(i as usize) implies #[trigger] self@[i]
                    == mid[i] by {
                    if i == c as int {
                        assert(cs[target as int] == c);
                    }
                }
            }
            lemma_only_changed_trans(t0, mid, self@, el as int);
            assert(multiple == str_set(t0[el as int].props@).contains("multiple"@));
            assert forall|k: int| 0 <= k < cs.len() implies #[trigger] child_props(self@, el as int, k)
                == props_after_click(t0, el as int, target as int, k) by {
                let p = child_props(t0, el as int, k).remove("hover"@);
                let q = if multiple {
                    p
                } else {
                    p.remove("checked"@)
                };
                assert(child_props(mid1, el as int, k) == p);
                assert(mid1[el as int] == t0[el as int]);
                assert(child_props(mid, el as int, k) == q);
                assert(mid[el as int] == t0[el as int]);
                if k != target {
                    assert(cs[k] != c);
                    assert(self@[cs[k] as int] == mid[cs[k] as int]);
                }
            }
        }
        true
    }

    /// The value of select `el`: `None` when no item is checked; for a select
    /// with `multiple`, the list of what every checked item stands for; else
    /// what the first checked item stands for. An item stands for its
    /// position when the select has the property `index`, else for its value.
    pub fn select_value(&self, el: usize) -> (r: Option<SelectValue>)
        requires
            self.wf(),
            self.valid(el),
            select_value_ok(self@, el as int),
        ensures
            ({
                let all = checked_items(self@, el as int, self@[el as int].children@.len() as int);
                let use_index = str_set(self@[el as int].props@).contains("index"@);
                match r {
                    None => all.len() == 0,
                    Some(SelectValue::List(v)) => {
                        &&& all.len() > 0
                        &&& str_set(self@[el as int].props@).contains("multiple"@)
                        &&& v@.len() == all.len()
                        &&& forall|j: int|
                            0 <= j < all.len() ==> #[trigger] stands_for(v@[j], self@, el as int, all[j], use_index)
                    },
                    Some(SelectValue::One(x)) => {
                        &&& all.len() > 0
                        &&& !str_set(self@[el as int].props@).contains("multiple"@)
                        &&& stands_for(x, self@, el as int, all[0], use_index)
                    },
                }
            }),
    {
        proof {
            assert(node_wf(self@, el as int));
        }
        let use_index = self.has_prop(el, "index");
        let n = self.child_count(el);
        let mut items: Vec<ItemValue> = Vec::new();
        let mut k: usize = 0;
        while k < n
            invariant
                self.wf(),
                self.valid(el),
                node_wf(self@, el as int),
                select_value_ok(self@, el as int),
                use_index == str_set(self@[el as int].props@).contains("index"@),
                n == self@[el as int].children@.len(),
                k <= n,
                items@.len() == checked_items(self@, el as int, k as int).len(),
                forall|j: int|
                    0 <= j < items@.len() ==> #[trigger] stands_for(
                        items@[j],
                        self@,
                        el as int,
                        checked_items(self@, el as int, k as int)[j],
                        use_index,
                    ),
            decreases n - k,
        {
            let c = self.children(el)[k];
            if self.has_prop(c, "checked") {
                let v = if use_index {
                    ItemValue::Index(k)
                } else {
                    assert(child_props(self@, el as int, k as int).contains("checked"@));
                    match self.value(c) {
                        Some(key) => ItemValue::Value(key.duplicate()),
                        None => {
                            proof {
                                assert(false);
                            }
                            ItemValue::Index(k)
                        },
                    }
                };
                let ghost before = items@;
                items.push(v);
                proof {
                    let ci = checked_items(self@, el as int, k + 1);
                    assert(ci == checked_items(self@, el as int, k as int).push(k));
                    assert forall|j: int| 0 <= j < items@.len() implies #[trigger] stands_for(
                        items@[j],
                        self@,
                        el as int,
                        ci[j],
                        use_index,
                    ) by {
                        if j < before.len() {
                            assert(items@[j] == before[j]);
                        }
                    }
                }
            }
            k = k + 1;
        }
        if items.len() == 0 {
            None
        } else if self.has_prop(el, "multiple") {
            Some(SelectValue::List(items))
        } else {
            let first = items.remove(0);
            Some(SelectValue::One(first))
        }
    }

    /// Settles select item `el` once it is built: an item without a value
    /// takes its id, or else its text, as a text value.
    pub fn select_item_finish(&mut self, el: usize)
        requires
            old(self).wf(),
            old(self).valid(el),
            old(self)@[el as int].value is None && old(self)@[el as int].id is None ==> old(self)@[el as int].text is Some,
        ensures
            final(self).wf(),
            final(self)@ == old(self)@.update(
                el as int,
                ElementNode { value: final(self)@[el as int].value, ..old(self)@[el as int] },
            ),
            old(self)@[el as int].value is Some ==> final(self)@[el as int].value == old(self)@[el as int].value,
            old(self)@[el as int].value is None ==> (final(self)@[el as int].value matches Some(Key::Text(t)) && t@
                == match old(self)@[el as int].id {
                Some(id) => id@,
                None => old(self)@[el as int].text->Some_0@,
            }),
    {
        if self.value(el).is_none() {
            let key = match self.id(el) {
                Some(id) => Key::text(id.as_str()),
                None => match self.text(el) {
                    Some(t) => Key::text(t.as_str()),
                    None => {
                        proof {
                            assert(false);
                        }
                        Key::Index(0)
                    },
                },
            };
            self.set_value(el, Some(key));
        } else {
            proof {
                assert(self@ == old(self)@.update(el as int, self@[el as int]));
            }
        }
    }

    /// Settles a select once its items are added: it takes the size of its
    /// items (`children_size`, as its tag measures them) plus its margins,
    /// and, without `multiple`, every item but the first loses its check
    /// mark.
    pub fn select_finish(&mut self, el: usize, children_size: (u32, u32))
        requires
            old(self).wf(),
            old(self).valid(el),
            children_size.0 + old(self)@[el as int].margin@[0] + old(self)@[el as int].margin@[2] <= u32::MAX,
            children_size.1 + old(self)@[el as int].margin@[1] + old(self)@[el as int].margin@[3] <= u32::MAX,
        ensures
            final(self).wf(),
            final(self)@[el as int].size == Some(select_size(old(self)@[el as int], children_size)),
            only_child_props_changed(
                old(self)@.update(el as int, ElementNode { size: final(self)@[el as int].size, ..old(self)@[el as int] }),
                final(self)@,
                el as int,
            ),
            forall|k: int|
                0 <= k < old(self)@[el as int].children@.len() ==> #[trigger] child_props(final(self)@, el as int, k)
                    == if str_set(old(self)@[el as int].props@).contains("multiple"@) || k == 0 {
                    child_props(old(self)@, el as int, k)
                } else {
                    child_props(old(self)@, el as int, k).remove("checked"@)
                },
    {
        let ghost t00 = self@;
        proof {
            assert(node_wf(t00, el as int));
        }
        let m = self.margin(el);
        self.set_size(el, children_size.0 + m[0] + m[2], children_size.1 + m[1] + m[3]);
        let ghost t0 = self@;
        proof {
            assert forall|k: int| 0 <= k < t00[el as int].children@.len() implies #[trigger] child_props(t0, el as int, k)
                == child_props(t00, el as int, k) by {
                assert(node_wf(t00, t00[el as int].children@[k] as int));
            }
        }
        if !self.has_prop(el, "multiple") {
            let n = self.child_count(el);
            self.remove_prop_from_children(el, "checked", Some(0));
            proof {
                assert forall|k: int| 0 <= k < t0[el as int].children@.len() implies #[trigger] child_props(
                    self@,
                    el as int,
                    k,
                ) == if k == 0 {
                    child_props(t0, el as int, k)
                } else {
                    child_props(t0, el as int, k).remove("checked"@)
                } by {
                    if k != 0 {
                        assert(k < n);
                        assert((k as usize) as int == k);
                        assert(Some(0usize) != Some(k as usize));
                    }
                }
            }
        } else {
            proof {
                assert(only_child_props_changed(self@, self@, el as int));
            }
        }
    }
}

/// In a select without `multiple`, space or return leaves exactly one item
/// checked: the hovered one (or the first when none is hovered).
pub proof fn lemma_single_select_activate(t: Seq<ElementNode>, el: int, k: int)
    requires
        !str_set(t[el].props@).contains("multiple"@),
    ensures
        props_after_key(t, el, SelectKey::Activate, k).contains("checked"@) <==> k == activate_target(t, el),
{
    reveal_strlit("checked");
}

/// In a select without `multiple`, a click on an item leaves exactly that
/// item checked.
pub proof fn lemma_single_select_click(t: Seq<ElementNode>, el: int, c: int, k: int)
    requires
        !str_set(t[el].props@).contains("multiple"@),
    ensures
        props_after_click(t, el, c, k).contains("checked"@) <==> k == c,
        props_after_click(t, el, c, k).contains("hover"@) <==> k == c,
{
    reveal_strlit("checked");
    reveal_strlit("hover");
}

/// The arrow keys leave exactly one item hovered: the one they move to.
pub proof fn lemma_arrow_single_hover(t: Seq<ElementNode>, el: int, key: SelectKey, k: int)
    requires
        key == SelectKey::Up || key == SelectKey::Down,
    ensures
        props_after_key(t, el, key, k).contains("hover"@) <==> k == hover_target(t, el, key),
{
}

} // verus!
