//! Laying out the children of an element: columns, as the body, dialogs and
//! plain containers stack their children, and rows, as spans do.
use crate::ui::element::{node_wf, outer_size_of, replaced, size_or_zero, tree_wf, ElementNode, ElementTree};
use crate::ui::Align;
use vstd::prelude::*;

verus! {

/// The offset that puts something of size `used` at `a` within `space`.
pub open spec fn align_offset(a: Align, space: int, used: int) -> int {
    match a {
        Align::Min => 0,
        Align::Center => (space - used) / 2,
        Align::Max => space - used,
    }
}

/// The alignment a child takes in a column: its own anchor when the column
/// heeds anchors and the child has one, the column's alignment otherwise.
pub open spec fn child_align(n: ElementNode, align: Align, use_anchor: bool) -> Align {
    if use_anchor {
        match n.anchor {
            Some(a) => a,
            None => align,
        }
    } else {
        align
    }
}

/// Whether a child takes part in the column: when placed children are
/// skipped, a child that already has a position keeps it.
pub open spec fn in_column(n: ElementNode, skip_placed: bool) -> bool {
    !(skip_placed && n.pos is Some)
}

/// The outer height of those of the first `k` children `cs` that take part.
pub open spec fn column_height(t: Seq<ElementNode>, cs: Seq<usize>, k: int, skip_placed: bool) -> int
    decreases k,
{
    if k <= 0 {
        0
    } else {
        column_height(t, cs, k - 1, skip_placed) + if in_column(t[cs[k - 1] as int], skip_placed) {
            outer_size_of(t[cs[k - 1] as int]).1
        } else {
            0
        }
    }
}

/// How a column is laid out: its left edge and top, the width children are
/// aligned in, the alignment, whether children's anchors override it, and
/// whether children that already have a position are left alone.
#[derive(Copy, Clone)]
pub struct Column {
    pub x: i32,
    pub y: i32,
    pub width: u32,
    pub align: Align,
    pub use_anchor: bool,
    pub skip_placed: bool,
}

/// The outer position of the `k`-th child of a column.
pub open spec fn column_slot(t: Seq<ElementNode>, cs: Seq<usize>, k: int, col: Column) -> (int, int) {
    let n = t[cs[k] as int];
    (
        col.x + align_offset(child_align(n, col.align, col.use_anchor), col.width as int, outer_size_of(n).0),
        col.y + column_height(t, cs, k, col.skip_placed),
    )
}

/// The `k`-th child after the column is laid out: a child that takes part
/// gets the position its slot gives, moved in by its padding.
pub open spec fn column_child(t: Seq<ElementNode>, cs: Seq<usize>, k: int, col: Column) -> ElementNode {
    let n = t[cs[k] as int];
    if in_column(n, col.skip_placed) {
        let slot = column_slot(t, cs, k, col);
        ElementNode { pos: Some(((slot.0 + n.pad@[0]) as i32, (slot.1 + n.pad@[1]) as i32)), ..n }
    } else {
        n
    }
}

/// The `k`-th child of the column fits the machine's integers.
pub open spec fn column_child_fits(t: Seq<ElementNode>, cs: Seq<usize>, k: int, col: Column) -> bool {
    let n = t[cs[k] as int];
    let o = outer_size_of(n);
    let a = child_align(n, col.align, col.use_anchor);
    let off = align_offset(a, col.width as int, o.0);
    let slot = column_slot(t, cs, k, col);
    in_column(n, col.skip_placed) ==> {
        &&& o.0 <= u32::MAX
        &&& o.1 <= i32::MAX
        &&& n.pad@[0] <= i32::MAX
        &&& n.pad@[1] <= i32::MAX
        &&& (a != Align::Min ==> o.0 <= col.width)
        &&& off <= i32::MAX
        &&& slot.0 + n.pad@[0] <= i32::MAX
        &&& slot.1 + n.pad@[1] <= i32::MAX
        &&& slot.1 + o.1 <= i32::MAX
    }
}

/// Every child of the column fits the machine's integers.
pub open spec fn column_fits(t: Seq<ElementNode>, cs: Seq<usize>, col: Column) -> bool {
    forall|k: int| 0 <= k < cs.len() ==> #[trigger] column_child_fits(t, cs, k, col)
}

/// The tree `b` is `a` with the children `cs` of a column laid out.
pub open spec fn column_laid(a: Seq<ElementNode>, b: Seq<ElementNode>, cs: Seq<usize>, col: Column) -> bool {
    &&& b.len() == a.len()
    &&& forall|i: int| 0 <= i < a.len() && !cs.contains(i as usize) ==> #[trigger] b[i] == a[i]
    &&& forall|k: int| 0 <= k < cs.len() ==> #[trigger] b[cs[k] as int] == column_child(a, cs, k, col)
}

proof fn lemma_column_height_nonneg(t: Seq<ElementNode>, cs: Seq<usize>, k: int, skip: bool)
    ensures
        column_height(t, cs, k, skip) >= 0,
    decreases k,
{
    if k > 0 {
        lemma_column_height_nonneg(t, cs, k - 1, skip);
    }
}

/// Lays out the children of `el` as a column: each child that takes part is
/// placed at the column's left edge moved by its alignment offset, below the
/// children placed before it.
pub fn stack_column(tree: &mut ElementTree, el: usize, col: Column)
    requires
        old(tree).wf(),
        old(tree).valid(el),
        column_fits(old(tree)@, old(tree)@[el as int].children@, col),
    ensures
        final(tree).wf(),
        column_laid(old(tree)@, final(tree)@, old(tree)@[el as int].children@, col),
{
    let ghost t0 = tree@;
    let ghost cs = t0[el as int].children@;
    proof {
        assert(node_wf(t0, el as int));
    }
    let n = tree.child_count(el);
    let mut y: i32 = col.y;
    let mut k: usize = 0;
    while k < n
        invariant
            tree.wf(),
            tree@.len() == t0.len(),
            0 <= el < t0.len(),
            node_wf(t0, el as int),
            cs == t0[el as int].children@,
            n == cs.len(),
            k <= n,
            column_fits(t0, cs, col),
            tree@[el as int].children@ == cs,
            y == col.y + column_height(t0, cs, k as int, col.skip_placed),
            forall|i: int| 0 <= i < t0.len() && !cs.contains(i as usize) ==> #[trigger] tree@[i] == t0[i],
            forall|j: int| 0 <= j < k ==> #[trigger] tree@[cs[j] as int] == column_child(t0, cs, j, col),
            forall|j: int| k <= j < n ==> #[trigger] tree@[cs[j] as int] == t0[cs[j] as int],
        decreases n - k,
    {
        let c = tree.children(el)[k];
        assert(c == cs[k as int]);
        assert(el < c < t0.len());
        assert(tree@[c as int] == t0[c as int]);
        assert(column_child_fits(t0, cs, k as int, col));
        proof {
            lemma_column_height_nonneg(t0, cs, k as int, col.skip_placed);
        }
        let ghost before = tree@;
        if col.skip_placed && tree.pos(c).is_some() {
            assert(tree@[c as int] == column_child(t0, cs, k as int, col));
        } else {
            let (w, h) = tree.outer_size(c);
            let a = if col.use_anchor {
                match tree.anchor(c) {
                    Some(a) => a,
                    None => col.align,
                }
            } else {
                col.align
            };
            let off: u32 = match a {
                Align::Min => 0,
                Align::Center => (col.width - w) / 2,
                Align::Max => col.width - w,
            };
            let px = off as i32 + col.x;
            tree.set_outer_pos(c, px, y);
            y = y + h as i32;
            proof {
                assert(tree@[c as int] == column_child(t0, cs, k as int, col));
            }
        }
        proof {
            assert forall|i: int| 0 <= i < t0.len() && !cs.contains(i as usize) implies #[trigger] tree@[i]
                == t0[i] by {
                if i == c as int {
                    assert(cs[k as int] == c);
                }
            }
            assert forall|j: int| 0 <= j < k + 1 implies #[trigger] tree@[cs[j] as int] == column_child(
                t0,
                cs,
                j,
                col,
            ) by {
                if j < k {
                    assert(cs[j] != c);
                }
            }
            assert forall|j: int| k + 1 <= j < n implies #[trigger] tree@[cs[j] as int]
                == t0[cs[j] as int] by {
                assert(cs[j] != c);
            }
            assert(tree@[el as int] == before[el as int]);
        }
        k = k + 1;
    }
}

/// The widest outer width among those of the first `k` children `cs` that
/// take part (zero when none does).
pub open spec fn column_width(t: Seq<ElementNode>, cs: Seq<usize>, k: int, skip_placed: bool) -> int
    decreases k,
{
    if k <= 0 {
        0
    } else {
        let w = column_width(t, cs, k - 1, skip_placed);
        let n = t[cs[k - 1] as int];
        if in_column(n, skip_placed) && outer_size_of(n).0 > w {
            outer_size_of(n).0
        } else {
            w
        }
    }
}

/// The column in which a plain container stacks its children: at its
/// position moved in by its left and top margins, each child at the left.
pub open spec fn plain_column(n: ElementNode) -> Column {
    let pos = n.pos->Some_0;
    Column {
        x: (pos.0 + n.margin@[0]) as i32,
        y: (pos.1 + n.margin@[1]) as i32,
        width: 0,
        align: Align::Min,
        use_anchor: false,
        skip_placed: false,
    }
}

/// Stacks the children of `el` one below the other, from its position moved
/// in by its left and top margins. (Each child's own children are laid out by
/// the rule of that child's kind.)
pub fn layout_children(tree: &mut ElementTree, el: usize)
    requires
        old(tree).wf(),
        old(tree).valid(el),
        old(tree)@[el as int].pos is Some,
        old(tree)@[el as int].margin@[0] <= i32::MAX,
        old(tree)@[el as int].margin@[1] <= i32::MAX,
        old(tree)@[el as int].pos->Some_0.0 + old(tree)@[el as int].margin@[0] <= i32::MAX,
        old(tree)@[el as int].pos->Some_0.1 + old(tree)@[el as int].margin@[1] <= i32::MAX,
        column_fits(old(tree)@, old(tree)@[el as int].children@, plain_column(old(tree)@[el as int])),
    ensures
        final(tree).wf(),
        column_laid(
            old(tree)@,
            final(tree)@,
            old(tree)@[el as int].children@,
            plain_column(old(tree)@[el as int]),
        ),
{
    let pos = match tree.pos(el) {
        Some(p) => p,
        None => {
            proof {
                assert(false);
            }
            (0, 0)
        },
    };
    let margin = tree.margin(el);
    let col = Column {
        x: pos.0 + margin[0] as i32,
        y: pos.1 + margin[1] as i32,
        width: 0,
        align: Align::Min,
        use_anchor: false,
        skip_placed: false,
    };
    stack_column(tree, el, col);
}

/// The room the children of `el` without a position take: the widest outer
/// width and the sum of the outer heights.
pub open spec fn unplaced_size(t: Seq<ElementNode>, el: int) -> (int, int) {
    let cs = t[el].children@;
    (column_width(t, cs, cs.len() as int, true), column_height(t, cs, cs.len() as int, true))
}

/// The size the body lays its children out in: its own, or else the room
/// they take.
pub open spec fn body_size(t: Seq<ElementNode>, el: int) -> (int, int) {
    match t[el].size {
        Some(sz) => (sz.0 as int, sz.1 as int),
        None => unplaced_size(t, el),
    }
}

/// The body's position, or the origin.
pub open spec fn body_pos(n: ElementNode) -> (int, int) {
    match n.pos {
        Some(p) => (p.0 as int, p.1 as int),
        None => (0, 0),
    }
}

/// How far down the body's vertical alignment moves its column.
pub open spec fn body_voff(t: Seq<ElementNode>, el: int) -> int {
    let size = body_size(t, el);
    let all = unplaced_size(t, el);
    let free = if size.1 > all.1 { size.1 - all.1 } else { 0 };
    match t[el].valign {
        Some(Align::Center) => free / 2,
        Some(Align::Max) => free,
        _ => 0,
    }
}

/// The column in which the body (and a dialog) stacks the children that have
/// no position yet: within its size (or, without one, the room those children
/// take), from its position (or the origin), aligned as it says, and moved down
/// as its vertical alignment says.
pub open spec fn body_column(t: Seq<ElementNode>, el: int) -> Column {
    let n = t[el];
    let pos = body_pos(n);
    Column {
        x: pos.0 as i32,
        y: (pos.1 + body_voff(t, el)) as i32,
        width: body_size(t, el).0 as u32,
        align: match n.align {
            Some(a) => a,
            None => Align::Min,
        },
        use_anchor: false,
        skip_placed: true,
    }
}

/// The machine limits of the body's own sums.
pub open spec fn body_fits(t: Seq<ElementNode>, el: int) -> bool {
    let n = t[el];
    let cs = n.children@;
    &&& forall|k: int|
        0 <= k < cs.len() ==> in_column(#[trigger] t[cs[k] as int], true) ==> outer_size_of(
            t[cs[k] as int],
        ).0 <= u32::MAX && outer_size_of(t[cs[k] as int]).1 <= u32::MAX
    &&& column_height(t, cs, cs.len() as int, true) <= u32::MAX
    &&& body_voff(t, el) <= i32::MAX
    &&& body_pos(n).1 + body_voff(t, el) <= i32::MAX
    &&& column_fits(t, cs, body_column(t, el))
}

proof fn lemma_column_width_bound(t: Seq<ElementNode>, cs: Seq<usize>, k: int, skip: bool)
    requires
        forall|j: int| 0 <= j < k ==> in_column(#[trigger] t[cs[j] as int], skip) ==> outer_size_of(t[cs[j] as int]).0 <= u32::MAX,
    ensures
        0 <= column_width(t, cs, k, skip) <= u32::MAX,
    decreases k,
{
    if k > 0 {
        lemma_column_width_bound(t, cs, k - 1, skip);
    }
}

proof fn lemma_column_height_mono(t: Seq<ElementNode>, cs: Seq<usize>, j: int, k: int, skip: bool)
    requires
        j <= k,
    ensures
        column_height(t, cs, j, skip) <= column_height(t, cs, k, skip),
    decreases k - j,
{
    if j < k {
        lemma_column_height_mono(t, cs, j, k - 1, skip);
        if k > 0 {
            assert(outer_size_of(t[cs[k - 1] as int]).1 >= 0);
        }
    }
}

/// Lays out the children of the body (or of a dialog) that have no position
/// yet, one below the other within its size, aligned as it says. (Children
/// that already have a position keep it.)
pub fn body_layout_children(tree: &mut ElementTree, el: usize)
    requires
        old(tree).wf(),
        old(tree).valid(el),
        body_fits(old(tree)@, el as int),
    ensures
        final(tree).wf(),
        column_laid(
            old(tree)@,
            final(tree)@,
            old(tree)@[el as int].children@,
            body_column(old(tree)@, el as int),
        ),
{
    let ghost t = tree@;
    let ghost cs = t[el as int].children@;
    proof {
        assert(node_wf(t, el as int));
    }
    let n = tree.child_count(el);
    let mut all_w: u32 = 0;
    let mut all_h: u32 = 0;
    let mut k: usize = 0;
    while k < n
        invariant
            tree.wf(),
            t == tree@,
            0 <= el < t.len(),
            node_wf(t, el as int),
            cs == t[el as int].children@,
            n == cs.len(),
            k <= n,
            body_fits(t, el as int),
            all_w == column_width(t, cs, k as int, true),
            all_h == column_height(t, cs, k as int, true),
        decreases n - k,
    {
        let c = tree.children(el)[k];
        assert(c == cs[k as int]);
        if tree.pos(c).is_none() {
            assert(in_column(t[cs[k as int] as int], true));
            let (w, h) = tree.outer_size(c);
            if w > all_w {
                all_w = w;
            }
            proof {
                lemma_column_height_mono(t, cs, k + 1, n as int, true);
            }
            all_h = all_h + h;
        }
        k = k + 1;
    }
    let size = match tree.size(el) {
        Some(sz) => sz,
        None => (all_w, all_h),
    };
    let body_pos = match tree.pos(el) {
        Some(p) => p,
        None => (0, 0),
    };
    let voff: u32 = match tree.valign(el) {
        Some(Align::Center) => size.1.saturating_sub(all_h) / 2,
        Some(Align::Max) => size.1.saturating_sub(all_h),
        _ => 0,
    };
    let align = match tree.align(el) {
        Some(a) => a,
        None => Align::Min,
    };
    let col = Column {
        x: body_pos.0,
        y: body_pos.1 + voff as i32,
        width: size.0,
        align,
        use_anchor: false,
        skip_placed: true,
    };
    proof {
        lemma_column_width_bound(t, cs, n as int, true);
        assert(all_w == unplaced_size(t, el as int).0);
        assert(all_h == unplaced_size(t, el as int).1);
        assert(size.0 == body_size(t, el as int).0);
        assert(size.1 == body_size(t, el as int).1);
        assert(voff == body_voff(t, el as int));
        assert(col == body_column(t, el as int));
    }
    stack_column(tree, el, col);
}

/// The width of the first `k` children `cs` side by side, each followed by
/// `space`.
pub open spec fn row_width(t: Seq<ElementNode>, cs: Seq<usize>, k: int, space: int) -> int
    decreases k,
{
    if k <= 0 {
        0
    } else {
        row_width(t, cs, k - 1, space) + outer_size_of(t[cs[k - 1] as int]).0 + space
    }
}

/// The tallest outer height among the first `k` children `cs` (zero when
/// there are none).
pub open spec fn row_height(t: Seq<ElementNode>, cs: Seq<usize>, k: int) -> int
    decreases k,
{
    if k <= 0 {
        0
    } else {
        let h = row_height(t, cs, k - 1);
        let o = outer_size_of(t[cs[k - 1] as int]).1;
        if o > h {
            o
        } else {
            h
        }
    }
}

/// The room the children of a span take side by side, `space` apart: the
/// widths plus the spaces between them, and the tallest height.
pub open spec fn span_size(t: Seq<ElementNode>, el: int, space: int) -> (int, int) {
    let cs = t[el].children@;
    let w = row_width(t, cs, cs.len() as int, space);
    (if w > space { w - space } else { 0 }, row_height(t, cs, cs.len() as int))
}

proof fn lemma_row_width_mono(t: Seq<ElementNode>, cs: Seq<usize>, j: int, k: int, space: int)
    requires
        j <= k,
        space >= 0,
    ensures
        row_width(t, cs, j, space) <= row_width(t, cs, k, space),
    decreases k - j,
{
    if j < k {
        lemma_row_width_mono(t, cs, j, k - 1, space);
        if k > 0 {
            assert(outer_size_of(t[cs[k - 1] as int]).0 >= 0);
        }
    }
}

proof fn lemma_row_width_nonneg(t: Seq<ElementNode>, cs: Seq<usize>, k: int, space: int)
    requires
        space >= 0,
    ensures
        row_width(t, cs, k, space) >= 0,
    decreases k,
{
    if k > 0 {
        lemma_row_width_nonneg(t, cs, k - 1, space);
    }
}

proof fn lemma_row_height_bound(t: Seq<ElementNode>, cs: Seq<usize>, k: int, bound: int)
    requires
        bound >= 0,
        forall|j: int| 0 <= j < k ==> outer_size_of(#[trigger] t[cs[j] as int]).1 <= bound,
    ensures
        0 <= row_height(t, cs, k) <= bound,
    decreases k,
{
    if k > 0 {
        lemma_row_height_bound(t, cs, k - 1, bound);
        assert(outer_size_of(t[cs[k - 1] as int]).1 <= bound);
    }
}

/// The children of `el` fit the machine's integers side by side.
pub open spec fn row_fits(t: Seq<ElementNode>, el: int, space: int) -> bool {
    let cs = t[el].children@;
    &&& forall|k: int|
        0 <= k < cs.len() ==> outer_size_of(#[trigger] t[cs[k] as int]).0 <= u32::MAX
            && outer_size_of(t[cs[k] as int]).1 <= u32::MAX
    &&& row_width(t, cs, cs.len() as int, space) <= u32::MAX
}

/// The room the children of a span take side by side, `space` apart.
pub fn span_children_size(tree: &ElementTree, el: usize, space: u32) -> (r: (u32, u32))
    requires
        tree.wf(),
        tree.valid(el),
        row_fits(tree@, el as int, space as int),
    ensures
        r.0 == span_size(tree@, el as int, space as int).0,
        r.1 == span_size(tree@, el as int, space as int).1,
{
    let ghost t = tree@;
    let ghost cs = t[el as int].children@;
    proof {
        assert(node_wf(t, el as int));
    }
    let n = tree.child_count(el);
    let mut w: u32 = 0;
    let mut h: u32 = 0;
    let mut k: usize = 0;
    while k < n
        invariant
            tree.wf(),
            t == tree@,
            0 <= el < t.len(),
            node_wf(t, el as int),
            cs == t[el as int].children@,
            n == cs.len(),
            k <= n,
            row_fits(t, el as int, space as int),
            w == row_width(t, cs, k as int, space as int),
            h == row_height(t, cs, k as int),
        decreases n - k,
    {
        let c = tree.children(el)[k];
        assert(c == cs[k as int]);
        assert(outer_size_of(t[cs[k as int] as int]).0 <= u32::MAX);
        let (cw, ch) = tree.outer_size(c);
        proof {
            lemma_row_width_mono(t, cs, k + 1, n as int, space as int);
        }
        w = w + cw + space;
        if ch > h {
            h = ch;
        }
        k = k + 1;
    }
    (w.saturating_sub(space), h)
}

/// How a span places its children: from its inner position, moved right as
/// its alignment puts the row within its outer width.
pub open spec fn span_start(t: Seq<ElementNode>, el: int, space: int) -> (int, int) {
    let n = t[el];
    let pos = n.pos->Some_0;
    let outer = outer_size_of(n);
    let a = match n.align {
        Some(a) => a,
        None => Align::Min,
    };
    (
        pos.0 + n.margin@[0] + align_offset(a, outer.0, span_size(t, el, space).0),
        pos.1 + n.margin@[1],
    )
}

/// The outer position of the `k`-th child of a span: after the children
/// before it and their spaces, and down as the span's vertical alignment puts
/// it within the span's outer height.
pub open spec fn span_slot(t: Seq<ElementNode>, el: int, k: int, space: int) -> (int, int) {
    let n = t[el];
    let cs = n.children@;
    let start = span_start(t, el, space);
    let va = match n.valign {
        Some(a) => a,
        None => Align::Min,
    };
    (
        start.0 + row_width(t, cs, k, space),
        start.1 + align_offset(va, outer_size_of(n).1, outer_size_of(t[cs[k] as int]).1),
    )
}

/// The `k`-th child of a span after layout: at its slot, moved in by its
/// padding.
pub open spec fn span_child(t: Seq<ElementNode>, el: int, k: int, space: int) -> ElementNode {
    let c = t[t[el].children@[k] as int];
    let slot = span_slot(t, el, k, space);
    ElementNode { pos: Some(((slot.0 + c.pad@[0]) as i32, (slot.1 + c.pad@[1]) as i32)), ..c }
}

/// A span and its children fit the machine's integers while it lays them out.
#[verifier::opaque]
pub open spec fn span_fits(t: Seq<ElementNode>, el: int, space: int) -> bool {
    let n = t[el];
    let cs = n.children@;
    let outer = outer_size_of(n);
    let start = span_start(t, el, space);
    let a = match n.align {
        Some(a) => a,
        None => Align::Min,
    };
    let va = match n.valign {
        Some(a) => a,
        None => Align::Min,
    };
    &&& n.pos is Some
    &&& n.margin@[0] <= i32::MAX
    &&& n.margin@[1] <= i32::MAX
    &&& n.pos->Some_0.0 + n.margin@[0] <= i32::MAX
    &&& n.pos->Some_0.1 + n.margin@[1] <= i32::MAX
    &&& outer.0 <= u32::MAX
    &&& outer.1 <= u32::MAX
    &&& row_fits(t, el, space)
    &&& (a != Align::Min ==> span_size(t, el, space).0 <= outer.0)
    &&& align_offset(a, outer.0, span_size(t, el, space).0) <= i32::MAX
    &&& start.0 <= i32::MAX
    &&& forall|k: int|
        0 <= k < cs.len() ==> {
            let c = #[trigger] t[cs[k] as int];
            let slot = span_slot(t, el, k, space);
            &&& (va != Align::Min ==> outer_size_of(c).1 <= outer.1)
            &&& align_offset(va, outer.1, outer_size_of(c).1) <= i32::MAX
            &&& c.pad@[0] <= i32::MAX
            &&& c.pad@[1] <= i32::MAX
            &&& outer_size_of(c).0 <= i32::MAX
            &&& slot.1 <= i32::MAX
            &&& slot.0 + c.pad@[0] <= i32::MAX
            &&& slot.1 + c.pad@[1] <= i32::MAX
            &&& slot.0 + outer_size_of(c).0 + space <= i32::MAX
        }
}

/// What `span_fits` gives of the span and of its `k`-th child.
proof fn lemma_span_fits(t: Seq<ElementNode>, el: int, k: int, space: int)
    requires
        span_fits(t, el, space),
        0 <= k < t[el].children@.len(),
    ensures
        ({
            let n = t[el];
            let cs = n.children@;
            let outer = outer_size_of(n);
            let va = match n.valign {
                Some(a) => a,
                None => Align::Min,
            };
            let c = t[cs[k] as int];
            let slot = span_slot(t, el, k, space);
            &&& outer_size_of(c).0 <= u32::MAX
            &&& outer_size_of(c).1 <= u32::MAX
            &&& (va != Align::Min ==> outer_size_of(c).1 <= outer.1)
            &&& align_offset(va, outer.1, outer_size_of(c).1) <= i32::MAX
            &&& c.pad@[0] <= i32::MAX
            &&& c.pad@[1] <= i32::MAX
            &&& outer_size_of(c).0 <= i32::MAX
            &&& slot.1 <= i32::MAX
            &&& slot.0 + c.pad@[0] <= i32::MAX
            &&& slot.1 + c.pad@[1] <= i32::MAX
            &&& slot.0 + outer_size_of(c).0 + space <= i32::MAX
        }),
{
    reveal(span_fits);
    let cs = t[el].children@;
    assert(row_fits(t, el, space));
    let c = t[cs[k] as int];
    assert(outer_size_of(c).0 <= u32::MAX);
}

/// What `span_fits` gives of the span itself.
proof fn lemma_span_fits_top(t: Seq<ElementNode>, el: int, space: int)
    requires
        span_fits(t, el, space),
    ensures
        ({
            let n = t[el];
            let outer = outer_size_of(n);
            let start = span_start(t, el, space);
            let a = match n.align {
                Some(a) => a,
                None => Align::Min,
            };
            &&& n.pos is Some
            &&& n.margin@[0] <= i32::MAX
            &&& n.margin@[1] <= i32::MAX
            &&& n.pos->Some_0.0 + n.margin@[0] <= i32::MAX
            &&& n.pos->Some_0.1 + n.margin@[1] <= i32::MAX
            &&& outer.0 <= u32::MAX
            &&& outer.1 <= u32::MAX
            &&& row_fits(t, el, space)
            &&& (a != Align::Min ==> span_size(t, el, space).0 <= outer.0)
            &&& align_offset(a, outer.0, span_size(t, el, space).0) <= i32::MAX
            &&& start.0 <= i32::MAX
        }),
{
    reveal(span_fits);
}

/// Lays out the children of a span side by side, `spacing` apart.
pub fn layout_span(tree: &mut ElementTree, el: usize, spacing: u16)
    requires
        old(tree).wf(),
        old(tree).valid(el),
        span_fits(old(tree)@, el as int, spacing as int),
    ensures
        final(tree).wf(),
        final(tree)@.len() == old(tree)@.len(),
        forall|i: int|
            0 <= i < old(tree)@.len() && !old(tree)@[el as int].children@.contains(i as usize)
                ==> #[trigger] final(tree)@[i] == old(tree)@[i],
        forall|k: int|
            0 <= k < old(tree)@[el as int].children@.len() ==> #[trigger] final(tree)@[old(
                tree,
            )@[el as int].children@[k] as int] == span_child(old(tree)@, el as int, k, spacing as int),
{
    let ghost t0 = tree@;
    let ghost cs = t0[el as int].children@;
    let ghost space = spacing as int;
    proof {
        assert(node_wf(t0, el as int));
        lemma_span_fits_top(t0, el as int, space);
    }
    let pos = match tree.inner_pos(el) {
        Some(p) => p,
        None => {
            proof {
                assert(false);
            }
            (0, 0)
        },
    };
    let size = tree.outer_size(el);
    let child_size = span_children_size(tree, el, spacing as u32);
    let a = match tree.align(el) {
        Some(a) => a,
        None => Align::Min,
    };
    let va = match tree.valign(el) {
        Some(a) => a,
        None => Align::Min,
    };
    let off: u32 = match a {
        Align::Min => 0,
        Align::Center => (size.0 - child_size.0) / 2,
        Align::Max => size.0 - child_size.0,
    };
    let mut x: i32 = pos.0 + off as i32;
    let n = tree.child_count(el);
    let mut k: usize = 0;
    while k < n
        invariant
            tree.wf(),
            tree@.len() == t0.len(),
            0 <= el < t0.len(),
            node_wf(t0, el as int),
            cs == t0[el as int].children@,
            n == cs.len(),
            k <= n,
            space == spacing as int,
            span_fits(t0, el as int, space),
            tree@[el as int] == t0[el as int],
            pos.1 == span_start(t0, el as int, space).1,
            size.1 == outer_size_of(t0[el as int]).1,
            va == (match t0[el as int].valign {
                Some(a) => a,
                None => Align::Min,
            }),
            x == span_start(t0, el as int, space).0 + row_width(t0, cs, k as int, space),
            forall|i: int| 0 <= i < t0.len() && !cs.contains(i as usize) ==> #[trigger] tree@[i] == t0[i],
            forall|j: int| 0 <= j < k ==> #[trigger] tree@[cs[j] as int] == span_child(t0, el as int, j, space),
            forall|j: int| k <= j < n ==> #[trigger] tree@[cs[j] as int] == t0[cs[j] as int],
        decreases n - k,
    {
        let c = tree.children(el)[k];
        assert(c == cs[k as int]);
        assert(el < c < t0.len());
        assert(tree@[c as int] == t0[c as int]);
        proof {
            lemma_span_fits(t0, el as int, k as int, space);
            lemma_row_width_nonneg(t0, cs, k as int, space);
        }
        let (cw, ch) = tree.outer_size(c);
        let voff: u32 = match va {
            Align::Min => 0,
            Align::Center => (size.1 - ch) / 2,
            Align::Max => size.1 - ch,
        };
        let py = voff as i32 + pos.1;
        let ghost before = tree@;
        tree.set_outer_pos(c, x, py);
        x = x + cw as i32 + spacing as i32;
        proof {
            assert(tree@[c as int] == span_child(t0, el as int, k as int, space));
            assert forall|i: int| 0 <= i < t0.len() && !cs.contains(i as usize) implies #[trigger] tree@[i]
                == t0[i] by {
                if i == c as int {
                    assert(cs[k as int] == c);
                }
            }
            assert forall|j: int| 0 <= j < k + 1 implies #[trigger] tree@[cs[j] as int] == span_child(
                t0,
                el as int,
                j,
                space,
            ) by {
                if j < k {
                    assert(cs[j] != c);
                }
            }
            assert forall|j: int| k + 1 <= j < n implies #[trigger] tree@[cs[j] as int]
                == t0[cs[j] as int] by {
                assert(cs[j] != c);
            }
            assert(tree@[el as int] == before[el as int]);
        }
        k = k + 1;
    }
}

/// In a column, every child that takes part starts below the bottom of each
/// child that takes part before it: children never overlap.
pub proof fn lemma_column_no_overlap(t: Seq<ElementNode>, cs: Seq<usize>, col: Column, k: int, l: int)
    requires
        0 <= k < l < cs.len(),
        in_column(t[cs[k] as int], col.skip_placed),
    ensures
        column_slot(t, cs, l, col).1 >= column_slot(t, cs, k, col).1 + outer_size_of(t[cs[k] as int]).1,
{
    lemma_column_height_mono(t, cs, k + 1, l, col.skip_placed);
}

/// In a span, every child starts right of the right edge of each child
/// before it, at least the spacing apart.
pub proof fn lemma_row_no_overlap(t: Seq<ElementNode>, el: int, space: int, k: int, l: int)
    requires
        0 <= k < l < t[el].children@.len(),
        space >= 0,
    ensures
        span_slot(t, el, l, space).0 >= span_slot(t, el, k, space).0 + outer_size_of(
            t[t[el].children@[k] as int],
        ).0 + space,
{
    lemma_row_width_mono(t, t[el].children@, k + 1, l, space);
}

/// The size a span takes when it has none of its own: the room its children
/// take side by side, `space` apart, plus its margins.
pub open spec fn span_fit(t: Seq<ElementNode>, el: int, space: int) -> (int, int) {
    let m = t[el].margin@;
    let c = span_size(t, el, space);
    (c.0 + m[0] + m[2], c.1 + m[1] + m[3])
}

/// Gives a span without a size the size its children take (with its
/// margins); a span with a size keeps it.
pub fn span_fit_size(tree: &mut ElementTree, el: usize, spacing: u16)
    requires
        old(tree).wf(),
        old(tree).valid(el),
        row_fits(old(tree)@, el as int, spacing as int),
        span_fit(old(tree)@, el as int, spacing as int).0 <= u32::MAX,
        span_fit(old(tree)@, el as int, spacing as int).1 <= u32::MAX,
    ensures
        final(tree).wf(),
        old(tree)@[el as int].size is Some ==> final(tree)@ == old(tree)@,
        old(tree)@[el as int].size is None ==> replaced(
            old(tree)@,
            final(tree)@,
            el as int,
            ElementNode {
                size: Some(
                    (
                        span_fit(old(tree)@, el as int, spacing as int).0 as u32,
                        span_fit(old(tree)@, el as int, spacing as int).1 as u32,
                    ),
                ),
                ..old(tree)@[el as int]
            },
        ),
{
    if tree.size(el).is_none() {
        let child = span_children_size(tree, el, spacing as u32);
        let m = tree.margin(el);
        let ghost t = tree@;
        assert(span_size(t, el as int, spacing as int).0 >= 0);
        tree.set_size(el, child.0 + m[0] + m[2], child.1 + m[1] + m[3]);
        proof {
            assert(tree@ == t.update(el as int, tree@[el as int]));
        }
    }
}

/// The room inside a frame: its size (zero by zero without one) less the
/// border and margins on each axis, never below zero.
pub open spec fn frame_inner(n: ElementNode) -> (int, int) {
    let sz = size_or_zero(n);
    let m = n.margin@;
    let w = 2 + m[0] + m[2];
    let h = 2 + m[1] + m[3];
    (if sz.0 > w { sz.0 - w } else { 0 }, if sz.1 > h { sz.1 - h } else { 0 })
}

/// The room inside a frame, for its children.
pub fn frame_inner_size(tree: &ElementTree, el: usize) -> (r: (u32, u32))
    requires
        tree.wf(),
        tree.valid(el),
        2 + tree@[el as int].margin@[0] + tree@[el as int].margin@[2] <= u32::MAX,
        2 + tree@[el as int].margin@[1] + tree@[el as int].margin@[3] <= u32::MAX,
    ensures
        r.0 == frame_inner(tree@[el as int]).0,
        r.1 == frame_inner(tree@[el as int]).1,
{
    let m = tree.margin(el);
    let size = match tree.size(el) {
        Some(sz) => sz,
        None => (0, 0),
    };
    (size.0.saturating_sub(2 + m[0] + m[2]), size.1.saturating_sub(2 + m[1] + m[3]))
}

/// The size a frame settles on: a missing width becomes the larger of the
/// children's width with margins and border and the title's width with its
/// corners (its length plus four); a missing height becomes the children's
/// height with margins and border. A width or height of zero counts as
/// missing.
pub open spec fn frame_fit(size: (u32, u32), child: (u32, u32), m: Seq<u32>, title_len: Option<nat>) -> (
    int,
    int,
) {
    let w = if size.0 == 0 {
        let inner = child.0 + m[0] + m[2] + 2;
        let title: int = match title_len {
            Some(n) => n as int + 4,
            None => 0,
        };
        if inner >= title {
            inner
        } else {
            title
        }
    } else {
        size.0 as int
    };
    let h = if size.1 == 0 {
        2 + child.1 + m[1] + m[3]
    } else {
        size.1 as int
    };
    (w, h)
}

/// The size a frame settles on, from its size so far, the room its children
/// take, its margins and the length of its title.
pub fn frame_size(size: (u32, u32), child: (u32, u32), margin: [u32; 4], title_len: Option<usize>) -> (r: (
    u32,
    u32,
))
    requires
        frame_fit(size, child, margin@, match title_len {
            Some(n) => Some(n as nat),
            None => None,
        }).0 <= u32::MAX,
        child.0 + margin@[0] + margin@[2] + 2 <= u32::MAX,
        title_len matches Some(n) ==> n + 4 <= u32::MAX,
        frame_fit(size, child, margin@, match title_len {
            Some(n) => Some(n as nat),
            None => None,
        }).1 <= u32::MAX,
    ensures
        r.0 == frame_fit(size, child, margin@, match title_len {
            Some(n) => Some(n as nat),
            None => None,
        }).0,
        r.1 == frame_fit(size, child, margin@, match title_len {
            Some(n) => Some(n as nat),
            None => None,
        }).1,
{
    let mut out = size;
    if out.0 == 0 {
        let title_width: u32 = match title_len {
            None => 0,
            Some(n) => n as u32 + 4,
        };
        let inner = child.0 + margin[0] + margin[2] + 2;
        out.0 = if inner >= title_width {
            inner
        } else {
            title_width
        };
    }
    if out.1 == 0 {
        out.1 = 2 + child.1 + margin[1] + margin[3];
    }
    out
}

/// The column in which a frame stacks its children: inside its border and
/// margins, moved down as its vertical alignment puts `children_height`
/// within the inner height, each child placed as its own anchor says, or else
/// as the frame's alignment says.
pub open spec fn frame_column(n: ElementNode, children_height: int) -> Column {
    let pos = n.pos->Some_0;
    let sz = n.size->Some_0;
    let m = n.margin@;
    let inner_h = sz.1 - (2 + m[1] + m[3]);
    let va = match n.valign {
        Some(a) => a,
        None => Align::Min,
    };
    Column {
        x: (pos.0 + 1 + m[0]) as i32,
        y: (pos.1 + 1 + m[1] + align_offset(va, inner_h, children_height)) as i32,
        width: (sz.0 - (2 + m[0] + m[2])) as u32,
        align: match n.align {
            Some(a) => a,
            None => Align::Min,
        },
        use_anchor: true,
        skip_placed: false,
    }
}

/// The machine limits of a frame's own sums.
pub open spec fn frame_fits(n: ElementNode, children_height: int) -> bool {
    let pos = n.pos->Some_0;
    let sz = n.size->Some_0;
    let m = n.margin@;
    let inner_h = sz.1 - (2 + m[1] + m[3]);
    let va = match n.valign {
        Some(a) => a,
        None => Align::Min,
    };
    let off = align_offset(va, inner_h, children_height);
    &&& n.pos is Some
    &&& n.size is Some
    &&& 2 + m[0] + m[2] <= sz.0
    &&& 2 + m[1] + m[3] <= sz.1
    &&& 1 + m[0] <= i32::MAX
    &&& 1 + m[1] <= i32::MAX
    &&& pos.0 + 1 + m[0] <= i32::MAX
    &&& pos.1 + 1 + m[1] <= i32::MAX
    &&& (va != Align::Min ==> children_height <= inner_h)
    &&& off <= i32::MAX
    &&& pos.1 + 1 + m[1] + off <= i32::MAX
}

/// Lays out the children of a frame, one below the other inside its border
/// and margins; `children_height` is the height its children take.
pub fn layout_frame(tree: &mut ElementTree, el: usize, children_height: u32)
    requires
        old(tree).wf(),
        old(tree).valid(el),
        frame_fits(old(tree)@[el as int], children_height as int),
        column_fits(
            old(tree)@,
            old(tree)@[el as int].children@,
            frame_column(old(tree)@[el as int], children_height as int),
        ),
    ensures
        final(tree).wf(),
        column_laid(
            old(tree)@,
            final(tree)@,
            old(tree)@[el as int].children@,
            frame_column(old(tree)@[el as int], children_height as int),
        ),
{
    let ghost n = tree@[el as int];
    let pos = match tree.pos(el) {
        Some(p) => p,
        None => {
            proof {
                assert(false);
            }
            (0, 0)
        },
    };
    let size = match tree.size(el) {
        Some(s) => s,
        None => {
            proof {
                assert(false);
            }
            (0, 0)
        },
    };
    let m = tree.margin(el);
    let x = pos.0 + (1 + m[0]) as i32;
    let top = pos.1 + (1 + m[1]) as i32;
    let inner_w = size.0 - (2 + m[0] + m[2]);
    let inner_h = size.1 - (2 + m[1] + m[3]);
    let va = match tree.valign(el) {
        Some(a) => a,
        None => Align::Min,
    };
    let off: u32 = match va {
        Align::Min => 0,
        Align::Center => (inner_h - children_height) / 2,
        Align::Max => inner_h - children_height,
    };
    let align = match tree.align(el) {
        Some(a) => a,
        None => Align::Min,
    };
    let col = Column { x, y: top + off as i32, width: inner_w, align, use_anchor: true, skip_placed: false };
    assert(col == frame_column(n, children_height as int));
    stack_column(tree, el, col);
}

} // verus!
