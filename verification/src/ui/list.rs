//! Finishing a list: sizing it to its children, or fitting its children into
//! the size it was given, hiding those that no longer fit.
use crate::ui::element::{node_wf, outer_size_of, str_set, ElementNode, ElementTree};
use vstd::prelude::*;

verus! {

/// The height a list counts for child `c`: its outer height, or its own set
/// height.
pub open spec fn list_child_height(t: Seq<ElementNode>, c: int, outer: bool) -> int {
    if outer {
        outer_size_of(t[c]).1
    } else {
        t[c].size.unwrap().1 as int
    }
}

/// The heights of the first `k` children `cs`, added up.
pub open spec fn heights_before(t: Seq<ElementNode>, cs: Seq<usize>, k: int, outer: bool) -> int
    decreases k,
{
    if k <= 0 {
        0
    } else {
        heights_before(t, cs, k - 1, outer) + list_child_height(t, cs[k - 1] as int, outer)
    }
}

/// Child `k` of `cs` can be fitted below `limit`: its outer size fits a
/// `u32` when outer sizes count, and when the children before it leave room,
/// it has a size (when its own size counts) and the heights up to it fit a
/// `u32`.
pub open spec fn child_fits(t: Seq<ElementNode>, cs: Seq<usize>, k: int, limit: int, outer: bool) -> bool {
    let c = cs[k] as int;
    &&& outer ==> outer_size_of(t[c]).0 <= u32::MAX && outer_size_of(t[c]).1 <= u32::MAX
    &&& heights_before(t, cs, k, outer) < limit ==> {
        &&& !outer ==> t[c].size is Some
        &&& heights_before(t, cs, k, outer) + list_child_height(t, c, outer) <= u32::MAX
    }
}

/// Every child of `cs` can be fitted below `limit`.
pub open spec fn list_fits(t: Seq<ElementNode>, cs: Seq<usize>, limit: int, outer: bool) -> bool {
    forall|k: int| 0 <= k < cs.len() ==> #[trigger] child_fits(t, cs, k, limit, outer)
}

/// A child after fitting, given the heights `pre` of the children before it
/// and its own height `h`: when those already fill `limit`, it gets the
/// `hidden` property and nothing else changes; when it crosses `limit`, it is
/// cut to the height that is left (and given `width`, if one is given, else
/// keeping its width); otherwise, with a `width` it gets that width and the
/// height `h`, and without one it stays as it was.
pub open spec fn fitted_child(
    a: ElementNode,
    b: ElementNode,
    pre: int,
    h: int,
    limit: int,
    width: Option<u32>,
) -> bool {
    if pre >= limit {
        &&& b == (ElementNode { props: b.props, ..a })
        &&& str_set(b.props@) == str_set(a.props@).insert("hidden"@)
    } else if pre + h > limit {
        b == (ElementNode {
            size: Some(
                (
                    match width {
                        Some(w) => w,
                        None => a.size.unwrap().0,
                    },
                    (limit - pre) as u32,
                ),
            ),
            ..a
        })
    } else {
        b == match width {
            Some(w) => ElementNode { size: Some((w, h as u32)), ..a },
            None => a,
        }
    }
}

proof fn lemma_heights_grow(t: Seq<ElementNode>, cs: Seq<usize>, k: int, outer: bool)
    requires
        0 <= k < cs.len(),
    ensures
        heights_before(t, cs, k + 1, outer) >= heights_before(t, cs, k, outer),
{
    let n = t[cs[k] as int];
    assert(list_child_height(t, cs[k] as int, outer) >= 0);
}

/// Fits the children of `el` below `limit`, each as `fitted_child` says.
fn fit_children(tree: &mut ElementTree, el: usize, limit: u32, width: Option<u32>, outer: bool)
    requires
        old(tree).wf(),
        old(tree).valid(el),
        list_fits(old(tree)@, old(tree)@[el as int].children@, limit as int, outer),
        outer ==> width is Some,
    ensures
        final(tree).wf(),
        final(tree)@.len() == old(tree)@.len(),
        forall|i: int|
            0 <= i < old(tree)@.len() && !old(tree)@[el as int].children@.contains(i as usize)
                ==> #[trigger] final(tree)@[i] == old(tree)@[i],
        forall|k: int|
            0 <= k < old(tree)@[el as int].children@.len() ==> fitted_child(
                old(tree)@[old(tree)@[el as int].children@[k] as int],
                #[trigger] final(tree)@[old(tree)@[el as int].children@[k] as int],
                heights_before(old(tree)@, old(tree)@[el as int].children@, k, outer),
                list_child_height(old(tree)@, old(tree)@[el as int].children@[k] as int, outer),
                limit as int,
                width,
            ),
{
    let ghost t0 = tree@;
    let ghost cs = t0[el as int].children@;
    proof {
        assert(node_wf(t0, el as int));
        reveal_strlit("hidden");
    }
    let n = tree.child_count(el);
    let mut height: u32 = 0;
    let mut k: usize = 0;
    while k < n
        invariant
            tree.wf(),
            tree@.len() == t0.len(),
            0 <= el < t0.len(),
            node_wf(t0, el as int),
            cs == t0[el as int].children@,
            n == cs.len(),
            k <= n,
            list_fits(t0, cs, limit as int, outer),
            outer ==> width is Some,
            tree@[el as int].children@ == cs,
            heights_before(t0, cs, k as int, outer) < limit ==> height == heights_before(t0, cs, k as int, outer),
            heights_before(t0, cs, k as int, outer) >= limit ==> height == limit,
            forall|i: int| 0 <= i < t0.len() && !cs.contains(i as usize) ==> #[trigger] tree@[i] == t0[i],
            forall|j: int|
                0 <= j < k ==> fitted_child(
                    t0[cs[j] as int],
                    #[trigger] tree@[cs[j] as int],
                    heights_before(t0, cs, j, outer),
                    list_child_height(t0, cs[j] as int, outer),
                    limit as int,
                    width,
                ),
            forall|j: int| k <= j < n ==> #[trigger] tree@[cs[j] as int] == t0[cs[j] as int],
        decreases n - k,
    {
        let c = tree.children(el)[k];
        assert(c == cs[k as int]);
        assert(el < c < t0.len());
        assert(tree@[c as int] == t0[c as int]);
        assert(child_fits(t0, cs, k as int, limit as int, outer));
        proof {
            lemma_heights_grow(t0, cs, k as int, outer);
        }
        let ghost before = tree@;
        if height >= limit {
            tree.add_prop(c, "hidden");
            proof {
                reveal_strlit("hidden");
                assert(heights_before(t0, cs, k as int, outer) >= limit);
                assert(tree@[c as int] == (ElementNode { props: tree@[c as int].props, ..t0[c as int] }));
                assert(str_set(tree@[c as int].props@) == str_set(t0[c as int].props@).insert("hidden"@));
            }
        } else {
            let (w0, s) = if outer {
                tree.outer_size(c)
            } else {
                tree.size(c).unwrap()
            };
            assert(s == list_child_height(t0, c as int, outer));
            if s > limit - height {
                let w = match width {
                    Some(w) => w,
                    None => w0,
                };
                tree.set_size(c, w, limit - height);
                height = limit;
            } else {
                height = height + s;
                match width {
                    Some(w) => {
                        tree.set_size(c, w, s);
                    },
                    None => {},
                }
            }
        }
        proof {
            assert(fitted_child(
                t0[c as int],
                tree@[c as int],
                heights_before(t0, cs, k as int, outer),
                list_child_height(t0, c as int, outer),
                limit as int,
                width,
            ));
            assert forall|i: int| 0 <= i < t0.len() && !cs.contains(i as usize) implies #[trigger] tree@[i]
                == t0[i] by {
                if i == c as int {
                    assert(cs[k as int] == c);
                }
            }
            assert forall|j: int|
                0 <= j < k + 1 implies fitted_child(
                t0[cs[j] as int],
                #[trigger] tree@[cs[j] as int],
                heights_before(t0, cs, j, outer),
                list_child_height(t0, cs[j] as int, outer),
                limit as int,
                width,
            ) by {
                if j < k {
                    assert(cs[j] != c);
                }
            }
            assert forall|j: int| k + 1 <= j < n implies #[trigger] tree@[cs[j] as int]
                == t0[cs[j] as int] by {
                assert(cs[j] != c);
            }
            assert(tree@[el as int] == before[el as int]);
        }
        k = k + 1;
    }
}

/// Gives every child of `el` the width `w`, keeping its height.
fn set_child_widths(tree: &mut ElementTree, el: usize, w: u32)
    requires
        old(tree).wf(),
        old(tree).valid(el),
        forall|k: int|
            0 <= k < old(tree)@[el as int].children@.len() ==> (#[trigger] old(
                tree,
            )@[old(tree)@[el as int].children@[k] as int]).size is Some,
    ensures
        final(tree).wf(),
        final(tree)@.len() == old(tree)@.len(),
        forall|i: int|
            0 <= i < old(tree)@.len() && !old(tree)@[el as int].children@.contains(i as usize)
                ==> #[trigger] final(tree)@[i] == old(tree)@[i],
        forall|k: int|
            0 <= k < old(tree)@[el as int].children@.len() ==> #[trigger] final(tree)@[old(tree)@[el as int].children@[k] as int] == (ElementNode {
                size: Some((w, old(tree)@[old(tree)@[el as int].children@[k] as int].size.unwrap().1)),
                ..old(tree)@[old(tree)@[el as int].children@[k] as int]
            }),
{
    let ghost t0 = tree@;
    let ghost cs = t0[el as int].children@;
    proof {
        assert(node_wf(t0, el as int));
    }
    let n = tree.child_count(el);
    let mut k: usize = 0;
    while k < n
        invariant
            tree.wf(),
            tree@.len() == t0.len(),
            0 <= el < t0.len(),
            node_wf(t0, el as int),
            cs == t0[el as int].children@,
            n == cs.len(),
            k <= n,
            forall|j: int| 0 <= j < n ==> (#[trigger] t0[cs[j] as int]).size is Some,
            tree@[el as int].children@ == cs,
            forall|i: int| 0 <= i < t0.len() && !cs.contains(i as usize) ==> #[trigger] tree@[i] == t0[i],
            forall|j: int|
                0 <= j < k ==> #[trigger] tree@[cs[j] as int] == (ElementNode {
                    size: Some((w, t0[cs[j] as int].size.unwrap().1)),
                    ..t0[cs[j] as int]
                }),
            forall|j: int| k <= j < n ==> #[trigger] tree@[cs[j] as int] == t0[cs[j] as int],
        decreases n - k,
    {
        let c = tree.children(el)[k];
        assert(c == cs[k as int]);
        assert(el < c < t0.len());
        assert(tree@[c as int] == t0[c as int]);
        assert(t0[cs[k as int] as int].size is Some);
        let ghost before = tree@;
        let s = tree.size(c).unwrap();
        tree.set_size(c, w, s.1);
        proof {
            assert forall|i: int| 0 <= i < t0.len() && !cs.contains(i as usize) implies #[trigger] tree@[i]
                == t0[i] by {
                if i == c as int {
                    assert(cs[k as int] == c);
                }
            }
            assert forall|j: int|
                0 <= j < k + 1 implies #[trigger] tree@[cs[j] as int] == (ElementNode {
                size: Some((w, t0[cs[j] as int].size.unwrap().1)),
                ..t0[cs[j] as int]
            }) by {
                if j < k {
                    assert(cs[j] != c);
                }
            }
            assert forall|j: int| k + 1 <= j < n implies #[trigger] tree@[cs[j] as int]
                == t0[cs[j] as int] by {
                assert(cs[j] != c);
            }
            assert(tree@[el as int] == before[el as int]);
        }
        k = k + 1;
    }
}

/// The size a list was given, with a missing size read as no size at all.
pub open spec fn given_size(n: ElementNode) -> (u32, u32) {
    match n.size {
        Some(s) => s,
        None => (0, 0),
    }
}

/// The inputs on which `list_finish` does not panic: when the list has only
/// a height, its children fit below it by their own heights; when it has only
/// a width, every child has a size; when it has both, the children fit below
/// its height by their outer heights.
pub open spec fn list_finish_ok(t: Seq<ElementNode>, el: int) -> bool {
    let sz = given_size(t[el]);
    let cs = t[el].children@;
    &&& (sz.0 == 0 && sz.1 > 0) ==> list_fits(t, cs, sz.1 as int, false)
    &&& (sz.0 > 0 && sz.1 == 0) ==> forall|k: int| 0 <= k < cs.len() ==> (#[trigger] t[cs[k] as int]).size is Some
    &&& (sz.0 > 0 && sz.1 > 0) ==> list_fits(t, cs, sz.1 as int, true)
}

/// A finished list: `a` before, `b` after. Elements other than the list and
/// its children do not change. With no size given, the list takes the size
/// of its children, which stay as they were. With only a height, the list
/// takes the children's width and keeps its height, and its children are
/// fitted below that height by their own heights. With only a width, every
/// child gets that width and keeps its height, and the list takes the width
/// and the height of its children after that (`resized_height`). With both,
/// the list keeps its size and its children are fitted below its height by
/// their outer heights, each getting the list's width.
pub open spec fn list_done(
    a: Seq<ElementNode>,
    b: Seq<ElementNode>,
    el: int,
    children_size: (u32, u32),
    resized_height: u32,
) -> bool {
    let n = a[el];
    let cs = n.children@;
    let sz = given_size(n);
    &&& b.len() == a.len()
    &&& forall|i: int| 0 <= i < a.len() && i != el && !cs.contains(i as usize) ==> #[trigger] b[i] == a[i]
    &&& if sz.0 == 0 && sz.1 == 0 {
        &&& b[el] == (ElementNode { size: Some(children_size), ..n })
        &&& forall|k: int| 0 <= k < cs.len() ==> #[trigger] b[cs[k] as int] == a[cs[k] as int]
    } else if sz.0 == 0 {
        &&& b[el] == (ElementNode { size: Some((children_size.0, sz.1)), ..n })
        &&& forall|k: int|
            0 <= k < cs.len() ==> fitted_child(
                a[cs[k] as int],
                #[trigger] b[cs[k] as int],
                heights_before(a, cs, k, false),
                list_child_height(a, cs[k] as int, false),
                sz.1 as int,
                None,
            )
    } else if sz.1 == 0 {
        &&& b[el] == (ElementNode { size: Some((sz.0, resized_height)), ..n })
        &&& forall|k: int|
            0 <= k < cs.len() ==> #[trigger] b[cs[k] as int] == (ElementNode {
                size: Some((sz.0, a[cs[k] as int].size.unwrap().1)),
                ..a[cs[k] as int]
            })
    } else {
        &&& b[el] == n
        &&& forall|k: int|
            0 <= k < cs.len() ==> fitted_child(
                a[cs[k] as int],
                #[trigger] b[cs[k] as int],
                heights_before(a, cs, k, true),
                list_child_height(a, cs[k] as int, true),
                sz.1 as int,
                Some(sz.0),
            )
    }
}

/// Finishes list `el` as `list_done` says. `children_size` is the size its
/// children take together, and `resized_height` their height once they all
/// have the list's width (both as the list's tag measures them).
pub fn list_finish(tree: &mut ElementTree, el: usize, children_size: (u32, u32), resized_height: u32)
    requires
        old(tree).wf(),
        old(tree).valid(el),
        list_finish_ok(old(tree)@, el as int),
    ensures
        final(tree).wf(),
        list_done(old(tree)@, final(tree)@, el as int, children_size, resized_height),
{
    let ghost t0 = tree@;
    let ghost cs = t0[el as int].children@;
    proof {
        assert(node_wf(t0, el as int));
        assert(!cs.contains(el)) by {
            if cs.contains(el) {
                let k = choose|k: int| 0 <= k < cs.len() && cs[k] == el;
                assert(node_wf(t0, el as int));
            }
        }
    }
    let size = match tree.size(el) {
        Some(s) => s,
        None => (0, 0),
    };
    if size.0 == 0 && size.1 == 0 {
        tree.set_size(el, children_size.0, children_size.1);
        proof {
            assert forall|k: int| 0 <= k < cs.len() implies #[trigger] tree@[cs[k] as int] == t0[cs[k] as int] by {
                assert(cs[k] != el);
            }
        }
    } else if size.0 == 0 {
        tree.set_size(el, children_size.0, size.1);
        let ghost t1 = tree@;
        proof {
            assert forall|k: int| 0 <= k < cs.len() implies #[trigger] t1[cs[k] as int] == t0[cs[k] as int] by {
                assert(cs[k] != el);
            }
            assert forall|k: int| 0 <= k < cs.len() implies #[trigger] child_fits(t1, cs, k, size.1 as int, false) by {
                lemma_heights_same(t0, t1, cs, k, false);
                assert(child_fits(t0, cs, k, size.1 as int, false));
            }
        }
        fit_children(tree, el, size.1, None, false);
        proof {
            assert forall|k: int| 0 <= k < cs.len() implies heights_before(t1, cs, k, false) == heights_before(
                t0,
                cs,
                k,
                false,
            ) && #[trigger] t1[cs[k] as int] == t0[cs[k] as int] by {
                lemma_heights_same(t0, t1, cs, k, false);
                assert(cs[k] != el);
            }
        }
    } else if size.1 == 0 {
        let ghost t1 = tree@;
        set_child_widths(tree, el, size.0);
        tree.set_size(el, size.0, resized_height);
    } else {
        proof {
            assert forall|k: int| 0 <= k < cs.len() implies #[trigger] child_fits(t0, cs, k, size.1 as int, true) by {
            }
        }
        fit_children(tree, el, size.1, Some(size.0), true);
    }
}

/// Heights counted in two trees that agree on the children are the same.
proof fn lemma_heights_same(a: Seq<ElementNode>, b: Seq<ElementNode>, cs: Seq<usize>, k: int, outer: bool)
    requires
        forall|j: int| 0 <= j < cs.len() ==> #[trigger] b[cs[j] as int] == a[cs[j] as int],
        k <= cs.len(),
    ensures
        heights_before(b, cs, k, outer) == heights_before(a, cs, k, outer),
    decreases k,
{
    if k > 0 {
        lemma_heights_same(a, b, cs, k - 1, outer);
        assert(b[cs[k - 1] as int] == a[cs[k - 1] as int]);
    }
}

} // verus!
