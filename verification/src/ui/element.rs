//! The element tree behind the widgets: each element has a tag, an optional
//! id, classes and properties, a position and size, padding and margins, and
//! its place among its parent's children. Elements are held in one vector and
//! named by their index; the root is element 0 and a child always comes after
//! its parent.
use crate::text::{chars_eq, chars_of, decimal, decimal_chars, owned, string_of, text_is_empty};
use crate::ui::style::Style;
use crate::value::Key;
use crate::ui::Align;
use vstd::prelude::*;

verus! {

/// One element of a widget tree.
pub struct ElementNode {
    pub tag: String,
    pub id: Option<String>,
    pub parent: Option<usize>,
    pub children: Vec<usize>,
    pub classes: Vec<String>,
    pub props: Vec<String>,
    pub text: Option<String>,
    pub pos: Option<(i32, i32)>,
    pub size: Option<(u32, u32)>,
    pub align: Option<Align>,
    pub valign: Option<Align>,
    pub anchor: Option<Align>,
    pub vanchor: Option<Align>,
    pub pad: [u32; 4],
    pub margin: [u32; 4],
    /// The element's own style, which only it gets.
    pub local_style: Option<Style>,
    /// The element's value (what a select item stands for).
    pub value: Option<Key>,
}

/// Whether one of the strings of `v` reads `c`.
pub open spec fn has_str(v: Seq<String>, c: Seq<char>) -> bool {
    exists|k: int| 0 <= k < v.len() && #[trigger] v[k]@ == c
}

/// The strings of `v`, as a set of character sequences.
pub open spec fn str_set(v: Seq<String>) -> Set<Seq<char>> {
    Set::new(|c: Seq<char>| has_str(v, c))
}

/// No string of `v` is empty, and no two read the same.
pub open spec fn distinct_strs(v: Seq<String>) -> bool {
    &&& forall|i: int| 0 <= i < v.len() ==> (#[trigger] v[i]@).len() > 0
    &&& forall|i: int, j: int| 0 <= i < j < v.len() ==> #[trigger] v[i]@ != #[trigger] v[j]@
}

/// Element `i` is consistent with the rest of the tree `t`.
pub open spec fn node_wf(t: Seq<ElementNode>, i: int) -> bool {
    &&& match t[i].parent {
        Some(p) => p < i && t[p as int].children@.contains(i as usize),
        None => i == 0,
    }
    &&& t[i].children@.no_duplicates()
    &&& forall|k: int|
        0 <= k < t[i].children@.len() ==> {
            let c = #[trigger] t[i].children@[k];
            &&& i < c < t.len()
            &&& t[c as int].parent == Some(i as usize)
        }
    &&& distinct_strs(t[i].classes@)
    &&& distinct_strs(t[i].props@)
}

/// A well-formed tree: a root at 0, and every element consistent.
pub open spec fn tree_wf(t: Seq<ElementNode>) -> bool {
    &&& t.len() > 0
    &&& forall|i: int| 0 <= i < t.len() ==> #[trigger] node_wf(t, i)
}

/// A fresh element with the given tag.
pub open spec fn fresh_node(tag: Seq<char>, parent: Option<usize>, n: ElementNode) -> bool {
    &&& n.tag@ == tag
    &&& n.id is None
    &&& n.parent == parent
    &&& n.children@.len() == 0
    &&& n.classes@.len() == 0
    &&& n.props@.len() == 0
    &&& n.text is None
    &&& n.pos is None
    &&& n.size is None
    &&& n.align is None
    &&& n.valign is None
    &&& n.anchor is None
    &&& n.vanchor is None
    &&& n.local_style is None
    &&& n.value is None
    &&& n.pad@ == seq![0u32, 0u32, 0u32, 0u32]
    &&& n.margin@ == seq![0u32, 0u32, 0u32, 0u32]
}

fn new_node(tag: &str, parent: Option<usize>) -> (n: ElementNode)
    ensures
        fresh_node(tag@, parent, n),
{
    ElementNode {
        tag: owned(tag),
        id: None,
        parent,
        children: Vec::new(),
        classes: Vec::new(),
        props: Vec::new(),
        text: None,
        pos: None,
        size: None,
        align: None,
        valign: None,
        anchor: None,
        vanchor: None,
        pad: [0, 0, 0, 0],
        margin: [0, 0, 0, 0],
        local_style: None,
        value: None,
    }
}

/// A tree of elements.
pub struct ElementTree {
    nodes: Vec<ElementNode>,
}

impl ElementTree {
    /// The tree is well formed.
    pub open spec fn wf(&self) -> bool {
        tree_wf(self@)
    }

    /// Whether `el` names an element of the tree.
    pub open spec fn valid(&self, el: usize) -> bool {
        el < self@.len()
    }

    /// A tree that holds only a root with the given tag.
    pub fn new(tag: &str) -> (t: ElementTree)
        ensures
            t.wf(),
            t@.len() == 1,
            fresh_node(tag@, None, t@[0]),
    {
        let mut nodes = Vec::new();
        nodes.push(new_node(tag, None));
        let t = ElementTree { nodes };
        assert(node_wf(t@, 0));
        t
    }

    /// The number of elements.
    pub fn len(&self) -> (n: usize)
        ensures
            n == self@.len(),
    {
        self.nodes.len()
    }

    /// Adds a new element with the given tag as the last child of `parent`,
    /// and returns it.
    pub fn add_child(&mut self, parent: usize, tag: &str) -> (c: usize)
        requires
            old(self).wf(),
            old(self).valid(parent),
            old(self)@.len() < usize::MAX,
        ensures
            final(self).wf(),
            c == old(self)@.len(),
            final(self)@.len() == old(self)@.len() + 1,
            fresh_node(tag@, Some(parent), final(self)@[c as int]),
            final(self)@[parent as int].children@ == old(self)@[parent as int].children@.push(c),
            forall|i: int|
                0 <= i < old(self)@.len() && i != parent ==> final(self)@[i] == old(self)@[i],
            ({
                let p = final(self)@[parent as int];
                let q = old(self)@[parent as int];
                &&& p.tag == q.tag
                &&& p.id == q.id
                &&& p.parent == q.parent
                &&& p.classes == q.classes
                &&& p.props == q.props
                &&& p.text == q.text
                &&& p.pos == q.pos
                &&& p.size == q.size
                &&& p.align == q.align
                &&& p.valign == q.valign
                &&& p.anchor == q.anchor
                &&& p.vanchor == q.vanchor
                &&& p.pad == q.pad
                &&& p.margin == q.margin
            }),
    {
        let ghost t0 = self@;
        let c = self.nodes.len();
        let node = new_node(tag, Some(parent));
        self.nodes.push(node);
        let mut p = self.nodes.remove(parent);
        p.children.push(c);
        self.nodes.insert(parent, p);
        proof {
            let t = self@;
            assert(t.len() == t0.len() + 1);
            assert forall|i: int| 0 <= i < t.len() implies #[trigger] node_wf(t, i) by {
                if i < t0.len() {
                    assert(node_wf(t0, i));
                    if i != parent {
                        assert(t[i] == t0[i]);
                    }
                    match t[i].parent {
                        Some(q) => {
                            if q as int == parent as int {
                                assert(t[q as int].children@.contains(i as usize)) by {
                                    let k = choose|k: int|
                                        0 <= k < t0[q as int].children@.len()
                                            && t0[q as int].children@[k] == i as usize;
                                    assert(t[q as int].children@[k] == i as usize);
                                }
                            } else {
                                assert(t[q as int] == t0[q as int]);
                            }
                        },
                        None => {},
                    }
                    assert forall|k: int| 0 <= k < t[i].children@.len() implies {
                        let d = #[trigger] t[i].children@[k];
                        &&& i < d < t.len()
                        &&& t[d as int].parent == Some(i as usize)
                    } by {
                        if i == parent && k == t0[i].children@.len() {
                        } else {
                            let d = t[i].children@[k];
                            assert(t0[i].children@[k] == d);
                            assert(t[d as int] == t0[d as int] || d == parent);
                        }
                    }
                    if i == parent {
                        assert(!t0[i].children@.contains(c)) by {
                            if t0[i].children@.contains(c) {
                                let k = choose|k: int|
                                    0 <= k < t0[i].children@.len() && t0[i].children@[k] == c;
                                assert(t0[i].children@[k] < t0.len());
                            }
                        }
                    }
                } else {
                    assert(t[i].children@.len() == 0);
                    assert(t[parent as int].children@.last() == c);
                }
            }
        }
        c
    }
}

impl View for ElementTree {
    type V = Seq<ElementNode>;

    /// The elements, by index.
    closed spec fn view(&self) -> Seq<ElementNode> {
        self.nodes@
    }
}

/// The tree `b` is `a` with element `el` replaced by `n`.
pub open spec fn replaced(a: Seq<ElementNode>, b: Seq<ElementNode>, el: int, n: ElementNode) -> bool {
    b == a.update(el, n)
}

/// Two elements with the same parent and children, whose classes and
/// properties are unchanged or still free of repeats.
pub open spec fn same_shape(a: ElementNode, b: ElementNode) -> bool {
    &&& a.parent == b.parent
    &&& a.children == b.children
    &&& (a.classes == b.classes || distinct_strs(b.classes@))
    &&& (a.props == b.props || distinct_strs(b.props@))
}

proof fn lemma_shape_keeps_wf(a: Seq<ElementNode>, el: int, n: ElementNode)
    requires
        tree_wf(a),
        0 <= el < a.len(),
        same_shape(a[el], n),
    ensures
        tree_wf(a.update(el, n)),
{
    let b = a.update(el, n);
    assert(node_wf(a, el));
    assert forall|i: int| 0 <= i < b.len() implies #[trigger] node_wf(b, i) by {
        assert(node_wf(a, i));
        match b[i].parent {
            Some(p) => {
                assert(b[p as int].children == a[p as int].children);
            },
            None => {},
        }
        assert forall|k: int| 0 <= k < b[i].children@.len() implies {
            let c = #[trigger] b[i].children@[k];
            &&& i < c < b.len()
            &&& b[c as int].parent == Some(i as usize)
        } by {
            let c = b[i].children@[k];
            assert(a[i].children@[k] == c);
            assert(b[c as int].parent == a[c as int].parent);
        }
    }
}

/// Whether string `a` reads the same as `b`.
fn same_text(a: &String, b: &str) -> (r: bool)
    ensures
        r == (a@ == b@),
{
    *a == owned(b)
}

/// Whether one of the strings of `v` reads `c`.
fn contains_str(v: &Vec<String>, c: &str) -> (r: Option<usize>)
    ensures
        match r {
            Some(k) => k < v@.len() && v@[k as int]@ == c@,
            None => !has_str(v@, c@),
        },
{
    let mut k: usize = 0;
    while k < v.len()
        invariant
            k <= v@.len(),
            forall|j: int| 0 <= j < k ==> v@[j]@ != c@,
        decreases v@.len() - k,
    {
        if same_text(&v[k], c) {
            return Some(k);
        }
        k = k + 1;
    }
    None
}

impl ElementTree {
    /// Whether `el` is the root: it has no parent.
    pub fn is_root(&self, el: usize) -> (r: bool)
        requires
            self.valid(el),
        ensures
            r == self@[el as int].parent is None,
    {
        self.nodes[el].parent.is_none()
    }

    /// The element's tag.
    pub fn tag(&self, el: usize) -> (r: &String)
        requires
            self.valid(el),
        ensures
            r@ == self@[el as int].tag@,
    {
        &self.nodes[el].tag
    }

    /// Whether the element's tag is `tag`.
    pub fn has_tag(&self, el: usize, tag: &str) -> (r: bool)
        requires
            self.valid(el),
        ensures
            r == (self@[el as int].tag@ == tag@),
    {
        same_text(&self.nodes[el].tag, tag)
    }

    /// The element's id.
    pub fn id(&self, el: usize) -> (r: &Option<String>)
        requires
            self.valid(el),
        ensures
            *r == self@[el as int].id,
    {
        &self.nodes[el].id
    }

    /// Whether the element has an id.
    pub fn has_any_id(&self, el: usize) -> (r: bool)
        requires
            self.valid(el),
        ensures
            r == self@[el as int].id is Some,
    {
        self.nodes[el].id.is_some()
    }

    /// Whether the element's id is `id`.
    pub fn has_id(&self, el: usize, id: &str) -> (r: bool)
        requires
            self.valid(el),
        ensures
            r == (self@[el as int].id matches Some(s) && s@ == id@),
    {
        match &self.nodes[el].id {
            None => false,
            Some(s) => same_text(s, id),
        }
    }

    /// The element's text.
    pub fn text(&self, el: usize) -> (r: &Option<String>)
        requires
            self.valid(el),
        ensures
            *r == self@[el as int].text,
    {
        &self.nodes[el].text
    }

    /// Whether the element has a text.
    pub fn has_any_text(&self, el: usize) -> (r: bool)
        requires
            self.valid(el),
        ensures
            r == self@[el as int].text is Some,
    {
        self.nodes[el].text.is_some()
    }

    /// The element's size, once it has one.
    pub fn size(&self, el: usize) -> (r: Option<(u32, u32)>)
        requires
            self.valid(el),
        ensures
            r == self@[el as int].size,
    {
        self.nodes[el].size
    }

    /// The element's position, once it has one.
    pub fn pos(&self, el: usize) -> (r: Option<(i32, i32)>)
        requires
            self.valid(el),
        ensures
            r == self@[el as int].pos,
    {
        self.nodes[el].pos
    }

    /// The element's horizontal alignment.
    pub fn align(&self, el: usize) -> (r: Option<Align>)
        requires
            self.valid(el),
        ensures
            r == self@[el as int].align,
    {
        self.nodes[el].align
    }

    /// The element's vertical alignment.
    pub fn valign(&self, el: usize) -> (r: Option<Align>)
        requires
            self.valid(el),
        ensures
            r == self@[el as int].valign,
    {
        self.nodes[el].valign
    }

    /// Where the element asks to sit across its parent, if it says.
    pub fn anchor(&self, el: usize) -> (r: Option<Align>)
        requires
            self.valid(el),
        ensures
            r == self@[el as int].anchor,
    {
        self.nodes[el].anchor
    }

    /// Where the element asks to sit along its parent, if it says.
    pub fn vanchor(&self, el: usize) -> (r: Option<Align>)
        requires
            self.valid(el),
        ensures
            r == self@[el as int].vanchor,
    {
        self.nodes[el].vanchor
    }

    /// The element's padding: left, top, right, bottom.
    pub fn pad(&self, el: usize) -> (r: [u32; 4])
        requires
            self.valid(el),
        ensures
            r@ == self@[el as int].pad@,
    {
        self.nodes[el].pad
    }

    /// The element's margins: left, top, right, bottom.
    pub fn margin(&self, el: usize) -> (r: [u32; 4])
        requires
            self.valid(el),
        ensures
            r@ == self@[el as int].margin@,
    {
        self.nodes[el].margin
    }

    /// Whether the element has the class `class`.
    pub fn has_class(&self, el: usize, class: &str) -> (r: bool)
        requires
            self.valid(el),
        ensures
            r == str_set(self@[el as int].classes@).contains(class@),
    {
        contains_str(&self.nodes[el].classes, class).is_some()
    }

    /// Whether the element has the property `prop`.
    pub fn has_prop(&self, el: usize, prop: &str) -> (r: bool)
        requires
            self.valid(el),
        ensures
            r == str_set(self@[el as int].props@).contains(prop@),
    {
        contains_str(&self.nodes[el].props, prop).is_some()
    }

    /// The element's parent, if it is not the root.
    pub fn parent(&self, el: usize) -> (r: Option<usize>)
        requires
            self.valid(el),
        ensures
            r == self@[el as int].parent,
    {
        self.nodes[el].parent
    }

    /// The element's children, in order.
    pub fn children(&self, el: usize) -> (r: &Vec<usize>)
        requires
            self.valid(el),
        ensures
            r@ == self@[el as int].children@,
    {
        &self.nodes[el].children
    }

    /// The number of children of the element.
    pub fn child_count(&self, el: usize) -> (r: usize)
        requires
            self.valid(el),
        ensures
            r == self@[el as int].children@.len(),
    {
        self.nodes[el].children.len()
    }

    /// The element's first child, if it has children.
    pub fn first_child(&self, el: usize) -> (r: Option<usize>)
        requires
            self.valid(el),
        ensures
            r == (if self@[el as int].children@.len() == 0 {
                None
            } else {
                Some(self@[el as int].children@[0])
            }),
    {
        if self.nodes[el].children.len() == 0 {
            None
        } else {
            Some(self.nodes[el].children[0])
        }
    }

    /// The element's last child, if it has children.
    pub fn last_child(&self, el: usize) -> (r: Option<usize>)
        requires
            self.valid(el),
        ensures
            r == (if self@[el as int].children@.len() == 0 {
                None
            } else {
                Some(self@[el as int].children@.last())
            }),
    {
        let n = self.nodes[el].children.len();
        if n == 0 {
            None
        } else {
            Some(self.nodes[el].children[n - 1])
        }
    }

    /// The child at `index` among the element's children.
    pub fn get_child_by_index(&self, el: usize, index: usize) -> (r: Option<usize>)
        requires
            self.valid(el),
        ensures
            r == (if index < self@[el as int].children@.len() {
                Some(self@[el as int].children@[index as int])
            } else {
                None
            }),
    {
        if index < self.nodes[el].children.len() {
            Some(self.nodes[el].children[index])
        } else {
            None
        }
    }
}

impl ElementTree {
    /// Sets the element's id.
    pub fn set_id(&mut self, el: usize, id: &str)
        requires
            old(self).wf(),
            old(self).valid(el),
        ensures
            final(self).wf(),
            final(self)@[el as int].id matches Some(s) && s@ == id@,
            replaced(
                old(self)@,
                final(self)@,
                el as int,
                ElementNode { id: final(self)@[el as int].id, ..old(self)@[el as int] },
            ),
    {
        self.nodes[el].id = Some(owned(id));
        proof {
            lemma_shape_keeps_wf(old(self)@, el as int, self@[el as int]);
            assert(self@ == old(self)@.update(el as int, self@[el as int]));
        }
    }
}

impl ElementTree {
    /// Sets the element's text.
    pub fn set_text(&mut self, el: usize, text: &str)
        requires
            old(self).wf(),
            old(self).valid(el),
        ensures
            final(self).wf(),
            final(self)@[el as int].text matches Some(s) && s@ == text@,
            replaced(
                old(self)@,
                final(self)@,
                el as int,
                ElementNode { text: final(self)@[el as int].text, ..old(self)@[el as int] },
            ),
    {
        self.nodes[el].text = Some(owned(text));
        proof {
            lemma_shape_keeps_wf(old(self)@, el as int, self@[el as int]);
            assert(self@ == old(self)@.update(el as int, self@[el as int]));
        }
    }

    /// The element's classes.
    pub fn classes(&self, el: usize) -> (r: &Vec<String>)
        requires
            self.valid(el),
        ensures
            r@ == self@[el as int].classes@,
    {
        &self.nodes[el].classes
    }

    /// The element's properties.
    pub fn props(&self, el: usize) -> (r: &Vec<String>)
        requires
            self.valid(el),
        ensures
            r@ == self@[el as int].props@,
    {
        &self.nodes[el].props
    }

    /// Sets the element's value.
    pub fn set_value(&mut self, el: usize, value: Option<Key>)
        requires
            old(self).wf(),
            old(self).valid(el),
        ensures
            final(self).wf(),
            final(self)@[el as int].value == value,
            replaced(
                old(self)@,
                final(self)@,
                el as int,
                ElementNode { value: final(self)@[el as int].value, ..old(self)@[el as int] },
            ),
    {
        self.nodes[el].value = value;
        proof {
            lemma_shape_keeps_wf(old(self)@, el as int, self@[el as int]);
            assert(self@ == old(self)@.update(el as int, self@[el as int]));
        }
    }

    /// The element's value, if it has one.
    pub fn value(&self, el: usize) -> (r: &Option<Key>)
        requires
            self.valid(el),
        ensures
            *r == self@[el as int].value,
    {
        &self.nodes[el].value
    }

    /// Gives the element its own style.
    pub fn set_local_style(&mut self, el: usize, style: Style)
        requires
            old(self).wf(),
            old(self).valid(el),
        ensures
            final(self).wf(),
            final(self)@[el as int].local_style == Some(style),
            replaced(
                old(self)@,
                final(self)@,
                el as int,
                ElementNode { local_style: final(self)@[el as int].local_style, ..old(self)@[el as int] },
            ),
    {
        self.nodes[el].local_style = Some(style);
        proof {
            lemma_shape_keeps_wf(old(self)@, el as int, self@[el as int]);
            assert(self@ == old(self)@.update(el as int, self@[el as int]));
        }
    }

    /// The element's own style, if it has one.
    pub fn local_style(&self, el: usize) -> (r: &Option<Style>)
        requires
            self.valid(el),
        ensures
            *r == self@[el as int].local_style,
    {
        &self.nodes[el].local_style
    }

    /// Sets the element's size.
    pub fn set_size(&mut self, el: usize, width: u32, height: u32)
        requires
            old(self).wf(),
            old(self).valid(el),
        ensures
            final(self).wf(),
            final(self)@[el as int].size == Some((width, height)),
            replaced(
                old(self)@,
                final(self)@,
                el as int,
                ElementNode { size: final(self)@[el as int].size, ..old(self)@[el as int] },
            ),
    {
        self.nodes[el].size = Some((width, height));
        proof {
            lemma_shape_keeps_wf(old(self)@, el as int, self@[el as int]);
            assert(self@ == old(self)@.update(el as int, self@[el as int]));
        }
    }

    /// Sets the element's position.
    pub fn set_pos(&mut self, el: usize, x: i32, y: i32)
        requires
            old(self).wf(),
            old(self).valid(el),
        ensures
            final(self).wf(),
            final(self)@[el as int].pos == Some((x, y)),
            replaced(
                old(self)@,
                final(self)@,
                el as int,
                ElementNode { pos: final(self)@[el as int].pos, ..old(self)@[el as int] },
            ),
    {
        self.nodes[el].pos = Some((x, y));
        proof {
            lemma_shape_keeps_wf(old(self)@, el as int, self@[el as int]);
            assert(self@ == old(self)@.update(el as int, self@[el as int]));
        }
    }

    /// Sets the element's horizontal alignment.
    pub fn set_align(&mut self, el: usize, val: Align)
        requires
            old(self).wf(),
            old(self).valid(el),
        ensures
            final(self).wf(),
            final(self)@[el as int].align == Some(val),
            replaced(
                old(self)@,
                final(self)@,
                el as int,
                ElementNode { align: final(self)@[el as int].align, ..old(self)@[el as int] },
            ),
    {
        self.nodes[el].align = Some(val);
        proof {
            lemma_shape_keeps_wf(old(self)@, el as int, self@[el as int]);
            assert(self@ == old(self)@.update(el as int, self@[el as int]));
        }
    }

    /// Sets the element's vertical alignment.
    pub fn set_valign(&mut self, el: usize, val: Align)
        requires
            old(self).wf(),
            old(self).valid(el),
        ensures
            final(self).wf(),
            final(self)@[el as int].valign == Some(val),
            replaced(
                old(self)@,
                final(self)@,
                el as int,
                ElementNode { valign: final(self)@[el as int].valign, ..old(self)@[el as int] },
            ),
    {
        self.nodes[el].valign = Some(val);
        proof {
            lemma_shape_keeps_wf(old(self)@, el as int, self@[el as int]);
            assert(self@ == old(self)@.update(el as int, self@[el as int]));
        }
    }

    /// Sets the padding on all four sides.
    pub fn set_pad(&mut self, el: usize, pad: u32)
        requires
            old(self).wf(),
            old(self).valid(el),
        ensures
            final(self).wf(),
            final(self)@[el as int].pad@ == seq![pad, pad, pad, pad],
            replaced(
                old(self)@,
                final(self)@,
                el as int,
                ElementNode { pad: final(self)@[el as int].pad, ..old(self)@[el as int] },
            ),
    {
        self.nodes[el].pad = [pad, pad, pad, pad];
        proof {
            lemma_shape_keeps_wf(old(self)@, el as int, self@[el as int]);
            assert(self@ == old(self)@.update(el as int, self@[el as int]));
        }
    }

    /// Sets the margin on all four sides.
    pub fn set_margin(&mut self, el: usize, margin: u32)
        requires
            old(self).wf(),
            old(self).valid(el),
        ensures
            final(self).wf(),
            final(self)@[el as int].margin@ == seq![margin, margin, margin, margin],
            replaced(
                old(self)@,
                final(self)@,
                el as int,
                ElementNode { margin: final(self)@[el as int].margin, ..old(self)@[el as int] },
            ),
    {
        self.nodes[el].margin = [margin, margin, margin, margin];
        proof {
            lemma_shape_keeps_wf(old(self)@, el as int, self@[el as int]);
            assert(self@ == old(self)@.update(el as int, self@[el as int]));
        }
    }

    /// Sets the padding on the left.
    pub fn set_pad_left(&mut self, el: usize, pad: u32)
        requires
            old(self).wf(),
            old(self).valid(el),
        ensures
            final(self).wf(),
            final(self)@[el as int].pad@ == old(self)@[el as int].pad@.update(0, pad),
            replaced(
                old(self)@,
                final(self)@,
                el as int,
                ElementNode { pad: final(self)@[el as int].pad, ..old(self)@[el as int] },
            ),
    {
        self.nodes[el].pad = { let mut q = self.nodes[el].pad; q[0] = pad; q };
        proof {
            lemma_shape_keeps_wf(old(self)@, el as int, self@[el as int]);
            assert(self@ == old(self)@.update(el as int, self@[el as int]));
        }
    }

    /// Sets the padding on the top.
    pub fn set_pad_top(&mut self, el: usize, pad: u32)
        requires
            old(self).wf(),
            old(self).valid(el),
        ensures
            final(self).wf(),
            final(self)@[el as int].pad@ == old(self)@[el as int].pad@.update(1, pad),
            replaced(
                old(self)@,
                final(self)@,
                el as int,
                ElementNode { pad: final(self)@[el as int].pad, ..old(self)@[el as int] },
            ),
    {
        self.nodes[el].pad = { let mut q = self.nodes[el].pad; q[1] = pad; q };
        proof {
            lemma_shape_keeps_wf(old(self)@, el as int, self@[el as int]);
            assert(self@ == old(self)@.update(el as int, self@[el as int]));
        }
    }

    /// Sets the padding on the right.
    pub fn set_pad_right(&mut self, el: usize, pad: u32)
        requires
            old(self).wf(),
            old(self).valid(el),
        ensures
            final(self).wf(),
            final(self)@[el as int].pad@ == old(self)@[el as int].pad@.update(2, pad),
            replaced(
                old(self)@,
                final(self)@,
                el as int,
                ElementNode { pad: final(self)@[el as int].pad, ..old(self)@[el as int] },
            ),
    {
        self.nodes[el].pad = { let mut q = self.nodes[el].pad; q[2] = pad; q };
        proof {
            lemma_shape_keeps_wf(old(self)@, el as int, self@[el as int]);
            assert(self@ == old(self)@.update(el as int, self@[el as int]));
        }
    }

    /// Sets the padding on the bottom.
    pub fn set_pad_bottom(&mut self, el: usize, pad: u32)
        requires
            old(self).wf(),
            old(self).valid(el),
        ensures
            final(self).wf(),
            final(self)@[el as int].pad@ == old(self)@[el as int].pad@.update(3, pad),
            replaced(
                old(self)@,
                final(self)@,
                el as int,
                ElementNode { pad: final(self)@[el as int].pad, ..old(self)@[el as int] },
            ),
    {
        self.nodes[el].pad = { let mut q = self.nodes[el].pad; q[3] = pad; q };
        proof {
            lemma_shape_keeps_wf(old(self)@, el as int, self@[el as int]);
            assert(self@ == old(self)@.update(el as int, self@[el as int]));
        }
    }
}

impl ElementTree {
    /// Sets the left margin, and widens the element by as much as the margin grew.
    pub fn set_margin_left(&mut self, el: usize, margin: u32)
        requires
            old(self).wf(),
            old(self).valid(el),
            margin >= old(self)@[el as int].margin@[0],
            old(self)@[el as int].size matches Some(sz) ==> sz.0 + margin - old(
                self,
            )@[el as int].margin@[0] <= u32::MAX,
        ensures
            final(self).wf(),
            ({
                let n = old(self)@[el as int];
                let diff = margin - n.margin@[0];
                replaced(
                    old(self)@,
                    final(self)@,
                    el as int,
                    ElementNode {
                        margin: final(self)@[el as int].margin,
                        size: final(self)@[el as int].size,
                        ..n
                    },
                ) && final(self)@[el as int].margin@ == n.margin@.update(0, margin)
                    && final(self)@[el as int].size == match n.size {
                    Some(sz) => Some(((sz.0 + diff) as u32, sz.1)),
                    None => None,
                }
            }),
    {
        let current = self.nodes[el].margin;
        let diff = margin - current[0];
        self.nodes[el].margin = {
            let mut q = current;
            q[0] = margin;
            q
        };
        match self.nodes[el].size {
            Some(sz) => {
                self.nodes[el].size = Some((sz.0 + diff, sz.1));
            },
            None => {},
        }
        proof {
            lemma_shape_keeps_wf(old(self)@, el as int, self@[el as int]);
            assert(self@ == old(self)@.update(el as int, self@[el as int]));
        }
    }

    /// Makes the element taller by as much as `margin` exceeds the top margin, and
    /// stores `margin` in the first (left) slot of the margins.
    pub fn set_margin_top(&mut self, el: usize, margin: u32)
        requires
            old(self).wf(),
            old(self).valid(el),
            margin >= old(self)@[el as int].margin@[1],
            old(self)@[el as int].size matches Some(sz) ==> sz.1 + margin - old(
                self,
            )@[el as int].margin@[1] <= u32::MAX,
        ensures
            final(self).wf(),
            ({
                let n = old(self)@[el as int];
                let diff = margin - n.margin@[1];
                replaced(
                    old(self)@,
                    final(self)@,
                    el as int,
                    ElementNode {
                        margin: final(self)@[el as int].margin,
                        size: final(self)@[el as int].size,
                        ..n
                    },
                ) && final(self)@[el as int].margin@ == n.margin@.update(0, margin)
                    && final(self)@[el as int].size == match n.size {
                    Some(sz) => Some((sz.0, (sz.1 + diff) as u32)),
                    None => None,
                }
            }),
    {
        let current = self.nodes[el].margin;
        let diff = margin - current[1];
        self.nodes[el].margin = {
            let mut q = current;
            q[0] = margin;
            q
        };
        match self.nodes[el].size {
            Some(sz) => {
                self.nodes[el].size = Some((sz.0, sz.1 + diff));
            },
            None => {},
        }
        proof {
            lemma_shape_keeps_wf(old(self)@, el as int, self@[el as int]);
            assert(self@ == old(self)@.update(el as int, self@[el as int]));
        }
    }

    /// Widens the element by as much as `margin` exceeds the right margin, and
    /// stores `margin` in the first (left) slot of the margins.
    pub fn set_margin_right(&mut self, el: usize, margin: u32)
        requires
            old(self).wf(),
            old(self).valid(el),
            margin >= old(self)@[el as int].margin@[2],
            old(self)@[el as int].size matches Some(sz) ==> sz.0 + margin - old(
                self,
            )@[el as int].margin@[2] <= u32::MAX,
        ensures
            final(self).wf(),
            ({
                let n = old(self)@[el as int];
                let diff = margin - n.margin@[2];
                replaced(
                    old(self)@,
                    final(self)@,
                    el as int,
                    ElementNode {
                        margin: final(self)@[el as int].margin,
                        size: final(self)@[el as int].size,
                        ..n
                    },
                ) && final(self)@[el as int].margin@ == n.margin@.update(0, margin)
                    && final(self)@[el as int].size == match n.size {
                    Some(sz) => Some(((sz.0 + diff) as u32, sz.1)),
                    None => None,
                }
            }),
    {
        let current = self.nodes[el].margin;
        let diff = margin - current[2];
        self.nodes[el].margin = {
            let mut q = current;
            q[0] = margin;
            q
        };
        match self.nodes[el].size {
            Some(sz) => {
                self.nodes[el].size = Some((sz.0 + diff, sz.1));
            },
            None => {},
        }
        proof {
            lemma_shape_keeps_wf(old(self)@, el as int, self@[el as int]);
            assert(self@ == old(self)@.update(el as int, self@[el as int]));
        }
    }

    /// Makes the element taller by as much as `margin` exceeds the bottom margin,
    /// and stores `margin` in the first (left) slot of the margins.
    pub fn set_margin_bottom(&mut self, el: usize, margin: u32)
        requires
            old(self).wf(),
            old(self).valid(el),
            margin >= old(self)@[el as int].margin@[3],
            old(self)@[el as int].size matches Some(sz) ==> sz.1 + margin - old(
                self,
            )@[el as int].margin@[3] <= u32::MAX,
        ensures
            final(self).wf(),
            ({
                let n = old(self)@[el as int];
                let diff = margin - n.margin@[3];
                replaced(
                    old(self)@,
                    final(self)@,
                    el as int,
                    ElementNode {
                        margin: final(self)@[el as int].margin,
                        size: final(self)@[el as int].size,
                        ..n
                    },
                ) && final(self)@[el as int].margin@ == n.margin@.update(0, margin)
                    && final(self)@[el as int].size == match n.size {
                    Some(sz) => Some((sz.0, (sz.1 + diff) as u32)),
                    None => None,
                }
            }),
    {
        let current = self.nodes[el].margin;
        let diff = margin - current[3];
        self.nodes[el].margin = {
            let mut q = current;
            q[0] = margin;
            q
        };
        match self.nodes[el].size {
            Some(sz) => {
                self.nodes[el].size = Some((sz.0, sz.1 + diff));
            },
            None => {},
        }
        proof {
            lemma_shape_keeps_wf(old(self)@, el as int, self@[el as int]);
            assert(self@ == old(self)@.update(el as int, self@[el as int]));
        }
    }
}

proof fn lemma_push_str(v: Seq<String>, x: String)
    requires
        distinct_strs(v),
        !has_str(v, x@),
        x@.len() > 0,
    ensures
        distinct_strs(v.push(x)),
        str_set(v.push(x)) == str_set(v).insert(x@),
{
    let w = v.push(x);
    assert forall|c: Seq<char>| #[trigger] has_str(w, c) == (has_str(v, c) || c == x@) by {
        if has_str(v, c) {
            let k = choose|k: int| 0 <= k < v.len() && v[k]@ == c;
            assert(w[k]@ == c);
        }
        if c == x@ {
            assert(w[v.len() as int]@ == c);
        }
        if has_str(w, c) {
            let k = choose|k: int| 0 <= k < w.len() && w[k]@ == c;
            if k < v.len() {
                assert(v[k]@ == c);
            }
        }
    }
    assert(str_set(w) =~= str_set(v).insert(x@));
    assert forall|i: int, j: int| 0 <= i < j < w.len() implies #[trigger] w[i]@ != #[trigger] w[j]@ by {
        if j == v.len() {
            assert(w[i] == v[i]);
        }
    }
}

proof fn lemma_remove_str(v: Seq<String>, k: int)
    requires
        distinct_strs(v),
        0 <= k < v.len(),
    ensures
        distinct_strs(v.remove(k)),
        str_set(v.remove(k)) == str_set(v).remove(v[k]@),
{
    let w = v.remove(k);
    assert forall|c: Seq<char>| #[trigger] has_str(w, c) == (has_str(v, c) && c != v[k]@) by {
        if has_str(w, c) {
            let j = choose|j: int| 0 <= j < w.len() && w[j]@ == c;
            if j < k {
                assert(w[j] == v[j]);
            } else {
                assert(w[j] == v[j + 1]);
            }
        }
        if has_str(v, c) && c != v[k]@ {
            let j = choose|j: int| 0 <= j < v.len() && v[j]@ == c;
            if j < k {
                assert(w[j]@ == c);
            } else {
                assert(j != k);
                assert(w[j - 1]@ == c);
            }
        }
    }
    assert(str_set(w) =~= str_set(v).remove(v[k]@));
    assert forall|i: int| 0 <= i < w.len() implies (#[trigger] w[i]@).len() > 0 by {
        let i2 = if i < k { i } else { i + 1 };
        assert(w[i] == v[i2]);
    }
    assert forall|i: int, j: int| 0 <= i < j < w.len() implies #[trigger] w[i]@ != #[trigger] w[j]@ by {
        let i2 = if i < k { i } else { i + 1 };
        let j2 = if j < k { j } else { j + 1 };
        assert(w[i] == v[i2]);
        assert(w[j] == v[j2]);
    }
}

/// The set `s` with `p` taken out when it is there and put in when it is not
/// (an empty `p` changes nothing).
pub open spec fn toggled(s: Set<Seq<char>>, p: Seq<char>) -> Set<Seq<char>> {
    if p.len() == 0 {
        s
    } else if s.contains(p) {
        s.remove(p)
    } else {
        s.insert(p)
    }
}

/// Toggling a property twice leaves the element's properties as they were.
pub proof fn lemma_toggle_twice(s: Set<Seq<char>>, p: Seq<char>)
    ensures
        toggled(toggled(s, p), p) == s,
{
    if p.len() > 0 {
        if s.contains(p) {
            assert(s.remove(p).insert(p) =~= s);
        } else {
            assert(s.insert(p).remove(p) =~= s);
        }
    }
}

/// After adding a class or property the element has it; after removing a
/// property it lacks it; other names are unaffected by either.
pub proof fn lemma_names_read_after_write(s: Set<Seq<char>>, p: Seq<char>, q: Seq<char>)
    requires
        p.len() > 0,
        q != p,
    ensures
        s.insert(p).contains(p),
        !s.remove(p).contains(p),
        s.insert(p).contains(q) == s.contains(q),
        s.remove(p).contains(q) == s.contains(q),
{
}

/// Adds `c` to the strings of `v`, unless it is empty or already there.
fn insert_str(v: &mut Vec<String>, c: &str)
    requires
        distinct_strs(old(v)@),
    ensures
        distinct_strs(final(v)@),
        str_set(final(v)@) == (if c@.len() > 0 {
            str_set(old(v)@).insert(c@)
        } else {
            str_set(old(v)@)
        }),
{
    if text_is_empty(c) {
        return;
    }
    match contains_str(v, c) {
        Some(_) => {
            assert(str_set(v@) =~= str_set(v@).insert(c@));
        },
        None => {
            let x = owned(c);
            proof {
                lemma_push_str(v@, x);
            }
            v.push(x);
        },
    }
}

/// Takes `c` out of the strings of `v`.
fn remove_str(v: &mut Vec<String>, c: &str)
    requires
        distinct_strs(old(v)@),
    ensures
        distinct_strs(final(v)@),
        str_set(final(v)@) == str_set(old(v)@).remove(c@),
{
    match contains_str(v, c) {
        Some(k) => {
            proof {
                lemma_remove_str(v@, k as int);
            }
            v.remove(k);
        },
        None => {
            assert(str_set(v@) =~= str_set(v@).remove(c@));
        },
    }
}

impl ElementTree {
    /// Adds the class `class` to the element (an empty name adds nothing).
    pub fn add_class(&mut self, el: usize, class: &str)
        requires
            old(self).wf(),
            old(self).valid(el),
        ensures
            final(self).wf(),
            str_set(final(self)@[el as int].classes@) == (if class@.len() > 0 {
                str_set(old(self)@[el as int].classes@).insert(class@)
            } else {
                str_set(old(self)@[el as int].classes@)
            }),
            replaced(
                old(self)@,
                final(self)@,
                el as int,
                ElementNode { classes: final(self)@[el as int].classes, ..old(self)@[el as int] },
            ),
    {
        proof {
            assert(node_wf(self@, el as int));
        }
        insert_str(&mut self.nodes[el].classes, class);
        proof {
            lemma_shape_keeps_wf(old(self)@, el as int, self@[el as int]);
            assert(self@ == old(self)@.update(el as int, self@[el as int]));
        }
    }

    /// Adds the property `prop` to the element (an empty name adds nothing).
    pub fn add_prop(&mut self, el: usize, prop: &str)
        requires
            old(self).wf(),
            old(self).valid(el),
        ensures
            final(self).wf(),
            str_set(final(self)@[el as int].props@) == (if prop@.len() > 0 {
                str_set(old(self)@[el as int].props@).insert(prop@)
            } else {
                str_set(old(self)@[el as int].props@)
            }),
            replaced(
                old(self)@,
                final(self)@,
                el as int,
                ElementNode { props: final(self)@[el as int].props, ..old(self)@[el as int] },
            ),
    {
        proof {
            assert(node_wf(self@, el as int));
        }
        insert_str(&mut self.nodes[el].props, prop);
        proof {
            lemma_shape_keeps_wf(old(self)@, el as int, self@[el as int]);
            assert(self@ == old(self)@.update(el as int, self@[el as int]));
        }
    }

    /// Takes the property `prop` from the element.
    pub fn remove_prop(&mut self, el: usize, prop: &str)
        requires
            old(self).wf(),
            old(self).valid(el),
        ensures
            final(self).wf(),
            str_set(final(self)@[el as int].props@) == str_set(
                old(self)@[el as int].props@,
            ).remove(prop@),
            replaced(
                old(self)@,
                final(self)@,
                el as int,
                ElementNode { props: final(self)@[el as int].props, ..old(self)@[el as int] },
            ),
    {
        proof {
            assert(node_wf(self@, el as int));
        }
        if !text_is_empty(prop) {
            remove_str(&mut self.nodes[el].props, prop);
        } else {
            assert(!str_set(self@[el as int].props@).contains(prop@)) by {
                if has_str(self@[el as int].props@, prop@) {
                    let k = choose|k: int|
                        0 <= k < self@[el as int].props@.len() && self@[el as int].props@[k]@
                            == prop@;
                    assert(self@[el as int].props@[k]@.len() > 0);
                }
            }
            assert(str_set(self@[el as int].props@) =~= str_set(self@[el as int].props@).remove(
                prop@,
            ));
        }
        proof {
            lemma_shape_keeps_wf(old(self)@, el as int, self@[el as int]);
            assert(self@ == old(self)@.update(el as int, self@[el as int]));
        }
    }

    /// Adds the property `prop` when the element lacks it, and takes it away
    /// when it has it (an empty name changes nothing).
    pub fn toggle_prop(&mut self, el: usize, prop: &str)
        requires
            old(self).wf(),
            old(self).valid(el),
        ensures
            final(self).wf(),
            str_set(final(self)@[el as int].props@) == toggled(str_set(old(self)@[el as int].props@), prop@),
            replaced(
                old(self)@,
                final(self)@,
                el as int,
                ElementNode { props: final(self)@[el as int].props, ..old(self)@[el as int] },
            ),
    {
        if text_is_empty(prop) {
            assert(self@ == old(self)@.update(el as int, self@[el as int]));
            return;
        }
        if self.has_prop(el, prop) {
            self.remove_prop(el, prop);
        } else {
            self.add_prop(el, prop);
        }
    }
}

/// The first position of `c` in `cs`, if it occurs.
pub open spec fn position_of(cs: Seq<usize>, c: usize) -> Option<int>
    decreases cs.len(),
{
    if cs.len() == 0 {
        None
    } else if cs[0] == c {
        Some(0)
    } else {
        match position_of(cs.drop_first(), c) {
            Some(k) => Some(k + 1),
            None => None,
        }
    }
}

proof fn lemma_position_of(cs: Seq<usize>, c: usize, k: int)
    requires
        0 <= k <= cs.len(),
        forall|j: int| 0 <= j < k ==> cs[j] != c,
    ensures
        k < cs.len() && cs[k] == c ==> position_of(cs, c) == Some(k),
        k == cs.len() ==> position_of(cs, c) is None,
    decreases k,
{
    if k > 0 {
        lemma_position_of(cs.drop_first(), c, k - 1);
    }
}

impl ElementTree {
    /// The position of `child` among the children of `el`, if it is one.
    pub fn child_position(&self, el: usize, child: usize) -> (r: Option<usize>)
        requires
            self.valid(el),
        ensures
            match r {
                Some(k) => position_of(self@[el as int].children@, child) == Some(k as int),
                None => position_of(self@[el as int].children@, child) is None,
            },
    {
        let cs = &self.nodes[el].children;
        let mut k: usize = 0;
        while k < cs.len()
            invariant
                k <= cs@.len(),
                cs@ == self@[el as int].children@,
                forall|j: int| 0 <= j < k ==> cs@[j] != child,
            decreases cs@.len() - k,
        {
            if cs[k] == child {
                proof {
                    lemma_position_of(cs@, child, k as int);
                }
                return Some(k);
            }
            k = k + 1;
        }
        proof {
            lemma_position_of(cs@, child, k as int);
        }
        None
    }
}

/// The element's size, or zero by zero before it has one.
pub open spec fn size_or_zero(n: ElementNode) -> (u32, u32) {
    match n.size {
        Some(sz) => sz,
        None => (0u32, 0u32),
    }
}

/// The size of the element with its padding.
pub open spec fn outer_size_of(n: ElementNode) -> (int, int) {
    let sz = size_or_zero(n);
    (sz.0 + n.pad@[0] + n.pad@[2], sz.1 + n.pad@[1] + n.pad@[3])
}

/// Whether the point `(x, y)` falls inside the element: it has a position
/// and a size, and the point lies in the rectangle they span.
pub open spec fn contains_point(n: ElementNode, x: int, y: int) -> bool {
    match (n.pos, n.size) {
        (Some(pos), Some(sz)) => pos.0 <= x < pos.0 + sz.0 && pos.1 <= y < pos.1 + sz.1,
        _ => false,
    }
}

impl ElementTree {
    /// The size of the element with its padding (a missing size counts as
    /// zero).
    pub fn outer_size(&self, el: usize) -> (r: (u32, u32))
        requires
            self.wf(),
            self.valid(el),
            outer_size_of(self@[el as int]).0 <= u32::MAX,
            outer_size_of(self@[el as int]).1 <= u32::MAX,
        ensures
            r.0 == outer_size_of(self@[el as int]).0,
            r.1 == outer_size_of(self@[el as int]).1,
    {
        let n = &self.nodes[el];
        let size = match n.size {
            Some(sz) => sz,
            None => (0, 0),
        };
        (size.0 + n.pad[0] + n.pad[2], size.1 + n.pad[1] + n.pad[3])
    }

    /// The element's position moved in by its left and top margins.
    pub fn inner_pos(&self, el: usize) -> (r: Option<(i32, i32)>)
        requires
            self.wf(),
            self.valid(el),
            self@[el as int].margin@[0] <= i32::MAX,
            self@[el as int].margin@[1] <= i32::MAX,
            self@[el as int].pos matches Some(p) ==> p.0 + self@[el as int].margin@[0] <= i32::MAX
                && p.1 + self@[el as int].margin@[1] <= i32::MAX,
        ensures
            r == match self@[el as int].pos {
                Some(p) => Some(
                    (
                        (p.0 + self@[el as int].margin@[0]) as i32,
                        (p.1 + self@[el as int].margin@[1]) as i32,
                    ),
                ),
                None => None,
            },
    {
        let n = &self.nodes[el];
        match n.pos {
            None => None,
            Some((x, y)) => Some((x + n.margin[0] as i32, y + n.margin[1] as i32)),
        }
    }

    /// Places the element so that its padding starts at `(x, y)`: its own
    /// position moves in by the left and top padding.
    pub fn set_outer_pos(&mut self, el: usize, x: i32, y: i32)
        requires
            old(self).wf(),
            old(self).valid(el),
            old(self)@[el as int].pad@[0] <= i32::MAX,
            old(self)@[el as int].pad@[1] <= i32::MAX,
            x + old(self)@[el as int].pad@[0] <= i32::MAX,
            y + old(self)@[el as int].pad@[1] <= i32::MAX,
        ensures
            final(self).wf(),
            final(self)@[el as int].pos == Some(
                (
                    (x + old(self)@[el as int].pad@[0]) as i32,
                    (y + old(self)@[el as int].pad@[1]) as i32,
                ),
            ),
            replaced(
                old(self)@,
                final(self)@,
                el as int,
                ElementNode { pos: final(self)@[el as int].pos, ..old(self)@[el as int] },
            ),
    {
        let pad = self.nodes[el].pad;
        let x1 = x + pad[0] as i32;
        let y1 = y + pad[1] as i32;
        self.set_pos(el, x1, y1);
    }

    /// Whether the point `(x, y)` falls inside the element.
    pub fn contains(&self, el: usize, point: (i32, i32)) -> (r: bool)
        requires
            self.wf(),
            self.valid(el),
            ({
                let n = self@[el as int];
                (n.pos, n.size) matches (Some(pos), Some(sz)) ==> sz.0 <= i32::MAX && sz.1
                    <= i32::MAX && pos.0 + sz.0 <= i32::MAX && pos.1 + sz.1 <= i32::MAX
            }),
        ensures
            r == contains_point(self@[el as int], point.0 as int, point.1 as int),
    {
        match self.nodes[el].pos {
            None => false,
            Some(pos) => {
                if pos.0 > point.0 || pos.1 > point.1 {
                    return false;
                }
                match self.nodes[el].size {
                    None => false,
                    Some(size) => {
                        let right = pos.0 + size.0 as i32;
                        let bottom = pos.1 + size.1 as i32;
                        if right <= point.0 || bottom <= point.1 {
                            return false;
                        }
                        true
                    },
                }
            },
        }
    }
}

/// The first element of `cs` that satisfies `pred`.
pub open spec fn first_where(cs: Seq<usize>, pred: spec_fn(usize) -> bool) -> Option<usize>
    decreases cs.len(),
{
    if cs.len() == 0 {
        None
    } else if pred(cs[0]) {
        Some(cs[0])
    } else {
        first_where(cs.drop_first(), pred)
    }
}

/// The first element below `el`, in depth-first order (each child before
/// its own children, children in order), that satisfies `pred`.
pub open spec fn find_below(t: Seq<ElementNode>, el: int, pred: spec_fn(usize) -> bool) -> Option<
    usize,
>
    decreases t.len() - el, t[el].children@.len() + 1,
{
    if 0 <= el < t.len() {
        find_among(t, el, t[el].children@, pred)
    } else {
        None
    }
}

/// The first element that satisfies `pred` among the children `cs` of `el`
/// and their descendants, in depth-first order.
pub open spec fn find_among(
    t: Seq<ElementNode>,
    el: int,
    cs: Seq<usize>,
    pred: spec_fn(usize) -> bool,
) -> Option<usize>
    decreases t.len() - el, cs.len(),
{
    if cs.len() == 0 || !(0 <= el < t.len()) {
        None
    } else {
        let c = cs[0];
        if pred(c) {
            Some(c)
        } else if el < c < t.len() {
            match find_below(t, c as int, pred) {
                Some(x) => Some(x),
                None => find_among(t, el, cs.drop_first(), pred),
            }
        } else {
            find_among(t, el, cs.drop_first(), pred)
        }
    }
}

/// Element `c` has the id `id`.
pub open spec fn id_is(t: Seq<ElementNode>, id: Seq<char>) -> spec_fn(usize) -> bool {
    |c: usize| t[c as int].id matches Some(s) && s@ == id
}

/// Element `c` has the tag `tag`.
pub open spec fn tag_is(t: Seq<ElementNode>, tag: Seq<char>) -> spec_fn(usize) -> bool {
    |c: usize| t[c as int].tag@ == tag
}

impl ElementTree {
    /// The first child of `el` whose id is `id`.
    pub fn get_child_by_id(&self, el: usize, id: &str) -> (r: Option<usize>)
        requires
            self.wf(),
            self.valid(el),
        ensures
            r == first_where(self@[el as int].children@, id_is(self@, id@)),
    {
        proof {
            assert(node_wf(self@, el as int));
        }
        let cs = &self.nodes[el].children;
        let mut k: usize = 0;
        assert(cs@.skip(0) == cs@);
        while k < cs.len()
            invariant
                self.wf(),
                self.valid(el),
                cs@ == self@[el as int].children@,
                k <= cs@.len(),
                first_where(cs@, id_is(self@, id@)) == first_where(cs@.skip(k as int), id_is(self@, id@)),
            decreases cs@.len() - k,
        {
            let c = cs[k];
            assert(cs@.skip(k as int).drop_first() == cs@.skip(k + 1));
            assert(c < self@.len()) by {
                assert(node_wf(self@, el as int));
                assert(cs@[k as int] == c);
            }
            if self.has_id(c, id) {
                return Some(c);
            }
            k = k + 1;
        }
        None
    }

    /// The first child of `el` whose tag is `tag`.
    pub fn get_child_by_tag(&self, el: usize, tag: &str) -> (r: Option<usize>)
        requires
            self.wf(),
            self.valid(el),
        ensures
            r == first_where(self@[el as int].children@, tag_is(self@, tag@)),
    {
        let cs = &self.nodes[el].children;
        let mut k: usize = 0;
        assert(cs@.skip(0) == cs@);
        while k < cs.len()
            invariant
                self.wf(),
                self.valid(el),
                cs@ == self@[el as int].children@,
                k <= cs@.len(),
                first_where(cs@, tag_is(self@, tag@)) == first_where(cs@.skip(k as int), tag_is(self@, tag@)),
            decreases cs@.len() - k,
        {
            let c = cs[k];
            assert(cs@.skip(k as int).drop_first() == cs@.skip(k + 1));
            assert(c < self@.len()) by {
                assert(node_wf(self@, el as int));
                assert(cs@[k as int] == c);
            }
            if self.has_tag(c, tag) {
                return Some(c);
            }
            k = k + 1;
        }
        None
    }

    /// The first element below `el`, in depth-first order, whose id is `id`.
    pub fn find_by_id(&self, el: usize, id: &str) -> (r: Option<usize>)
        requires
            self.wf(),
            self.valid(el),
        ensures
            r == find_below(self@, el as int, id_is(self@, id@)),
        decreases self@.len() - el,
    {
        let ghost t = self@;
        let ghost pred = id_is(self@, id@);
        let cs = &self.nodes[el].children;
        let mut k: usize = 0;
        proof {
            assert(cs@.skip(0) == cs@);
            assert(node_wf(t, el as int));
        }
        while k < cs.len()
            invariant
                self.wf(),
                self.valid(el),
                t == self@,
                pred == id_is(self@, id@),
                cs@ == t[el as int].children@,
                k <= cs@.len(),
                forall|j: int| 0 <= j < cs@.len() ==> el < #[trigger] cs@[j] < t.len(),
                find_below(t, el as int, pred) == find_among(t, el as int, cs@.skip(k as int), pred),
            decreases cs@.len() - k,
        {
            let c = cs[k];
            assert(cs@.skip(k as int).drop_first() == cs@.skip(k + 1));
            assert(cs@.skip(k as int)[0] == c);
            if self.has_id(c, id) {
                return Some(c);
            }
            match self.find_by_id(c, id) {
                Some(x) => {
                    return Some(x);
                },
                None => {},
            }
            k = k + 1;
        }
        None
    }

    /// The first element below `el`, in depth-first order, whose tag is `tag`.
    pub fn find_by_tag(&self, el: usize, tag: &str) -> (r: Option<usize>)
        requires
            self.wf(),
            self.valid(el),
        ensures
            r == find_below(self@, el as int, tag_is(self@, tag@)),
        decreases self@.len() - el,
    {
        let ghost t = self@;
        let ghost pred = tag_is(self@, tag@);
        let cs = &self.nodes[el].children;
        let mut k: usize = 0;
        proof {
            assert(cs@.skip(0) == cs@);
            assert(node_wf(t, el as int));
        }
        while k < cs.len()
            invariant
                self.wf(),
                self.valid(el),
                t == self@,
                pred == tag_is(self@, tag@),
                cs@ == t[el as int].children@,
                k <= cs@.len(),
                forall|j: int| 0 <= j < cs@.len() ==> el < #[trigger] cs@[j] < t.len(),
                find_below(t, el as int, pred) == find_among(t, el as int, cs@.skip(k as int), pred),
            decreases cs@.len() - k,
        {
            let c = cs[k];
            assert(cs@.skip(k as int).drop_first() == cs@.skip(k + 1));
            assert(cs@.skip(k as int)[0] == c);
            if self.has_tag(c, tag) {
                return Some(c);
            }
            match self.find_by_tag(c, tag) {
                Some(x) => {
                    return Some(x);
                },
                None => {},
            }
            k = k + 1;
        }
        None
    }
}

impl ElementTree {
    /// Sets where the element sits across its parent.
    pub fn set_anchor(&mut self, el: usize, val: Align)
        requires
            old(self).wf(),
            old(self).valid(el),
        ensures
            final(self).wf(),
            final(self)@[el as int].anchor == Some(val),
            replaced(
                old(self)@,
                final(self)@,
                el as int,
                ElementNode { anchor: final(self)@[el as int].anchor, ..old(self)@[el as int] },
            ),
    {
        self.nodes[el].anchor = Some(val);
        proof {
            lemma_shape_keeps_wf(old(self)@, el as int, self@[el as int]);
            assert(self@ == old(self)@.update(el as int, self@[el as int]));
        }
    }

    /// Sets where the element sits along its parent.
    pub fn set_vanchor(&mut self, el: usize, val: Align)
        requires
            old(self).wf(),
            old(self).valid(el),
        ensures
            final(self).wf(),
            final(self)@[el as int].vanchor == Some(val),
            replaced(
                old(self)@,
                final(self)@,
                el as int,
                ElementNode { vanchor: final(self)@[el as int].vanchor, ..old(self)@[el as int] },
            ),
    {
        self.nodes[el].vanchor = Some(val);
        proof {
            lemma_shape_keeps_wf(old(self)@, el as int, self@[el as int]);
            assert(self@ == old(self)@.update(el as int, self@[el as int]));
        }
    }
}

/// The first leaf below `el` (or `el` itself when it has no children), in
/// depth-first order, that satisfies `pred`.
pub open spec fn leaf_below(t: Seq<ElementNode>, el: int, pred: spec_fn(usize) -> bool) -> Option<
    usize,
>
    decreases t.len() - el, t[el].children@.len() + 1,
{
    if !(0 <= el < t.len()) {
        None
    } else if t[el].children@.len() == 0 {
        if pred(el as usize) {
            Some(el as usize)
        } else {
            None
        }
    } else {
        leaf_among(t, el, t[el].children@, pred)
    }
}

/// The first leaf among the children `cs` of `el` and below them that
/// satisfies `pred`.
pub open spec fn leaf_among(
    t: Seq<ElementNode>,
    el: int,
    cs: Seq<usize>,
    pred: spec_fn(usize) -> bool,
) -> Option<usize>
    decreases t.len() - el, cs.len(),
{
    if cs.len() == 0 || !(0 <= el < t.len()) {
        None
    } else {
        let c = cs[0];
        if el < c < t.len() {
            match leaf_below(t, c as int, pred) {
                Some(x) => Some(x),
                None => leaf_among(t, el, cs.drop_first(), pred),
            }
        } else {
            leaf_among(t, el, cs.drop_first(), pred)
        }
    }
}

/// Element `c` contains the point `(x, y)`.
pub open spec fn holds_point(t: Seq<ElementNode>, x: int, y: int) -> spec_fn(usize) -> bool {
    |c: usize| contains_point(t[c as int], x, y)
}

/// The element's rectangle fits the machine's integers.
pub open spec fn rect_fits(n: ElementNode) -> bool {
    (n.pos, n.size) matches (Some(pos), Some(sz)) ==> sz.0 <= i32::MAX && sz.1 <= i32::MAX && pos.0
        + sz.0 <= i32::MAX && pos.1 + sz.1 <= i32::MAX
}

/// Every element's rectangle fits the machine's integers.
pub open spec fn geometry_fits(t: Seq<ElementNode>) -> bool {
    forall|i: int| 0 <= i < t.len() ==> #[trigger] rect_fits(t[i])
}

impl ElementTree {
    /// The first leaf at or below `el`, in depth-first order, that contains
    /// the point.
    pub fn leaf_at(&self, el: usize, point: (i32, i32)) -> (r: Option<usize>)
        requires
            self.wf(),
            self.valid(el),
            geometry_fits(self@),
        ensures
            r == leaf_below(self@, el as int, holds_point(self@, point.0 as int, point.1 as int)),
        decreases self@.len() - el,
    {
        let ghost t = self@;
        let ghost pred = holds_point(self@, point.0 as int, point.1 as int);
        let cs = &self.nodes[el].children;
        if cs.len() == 0 {
            assert(rect_fits(t[el as int]));
            if self.contains(el, point) {
                return Some(el);
            }
            return None;
        }
        let mut k: usize = 0;
        proof {
            assert(cs@.skip(0) == cs@);
            assert(node_wf(t, el as int));
        }
        while k < cs.len()
            invariant
                self.wf(),
                self.valid(el),
                geometry_fits(self@),
                t == self@,
                pred == holds_point(self@, point.0 as int, point.1 as int),
                cs@ == t[el as int].children@,
                cs@.len() > 0,
                k <= cs@.len(),
                forall|j: int| 0 <= j < cs@.len() ==> el < #[trigger] cs@[j] < t.len(),
                leaf_below(t, el as int, pred) == leaf_among(t, el as int, cs@.skip(k as int), pred),
            decreases cs@.len() - k,
        {
            let c = cs[k];
            assert(cs@.skip(k as int).drop_first() == cs@.skip(k + 1));
            assert(cs@.skip(k as int)[0] == c);
            match self.leaf_at(c, point) {
                Some(x) => {
                    return Some(x);
                },
                None => {},
            }
            k = k + 1;
        }
        None
    }
}

/// How many of the first `k` elements `cs` have the tag `tag`.
pub open spec fn count_tag(t: Seq<ElementNode>, cs: Seq<usize>, k: int, tag: Seq<char>) -> nat
    decreases k,
{
    if k <= 0 {
        0
    } else {
        count_tag(t, cs, k - 1, tag) + if t[cs[k - 1] as int].tag@ == tag {
            1nat
        } else {
            0nat
        }
    }
}

/// The path that names element `el`: `#` and its id when it has one; else
/// its parent's path, a dot, its tag and, in brackets, how many children of
/// the parent before it share its tag; for the root without an id, its tag.
pub open spec fn path_of(t: Seq<ElementNode>, el: int) -> Seq<char>
    decreases el + 1,
{
    if !(0 <= el < t.len()) {
        seq![]
    } else {
        let n = t[el];
        match n.id {
            Some(id) => seq!['#'] + id@,
            None => if n.parent is Some && n.parent->Some_0 < el {
                let p = n.parent->Some_0 as int;
                let cs = t[p].children@;
                let k = match position_of(cs, el as usize) {
                    Some(k) => k,
                    None => 0,
                };
                path_of(t, p) + seq!['.'] + n.tag@ + seq!['['] + decimal(count_tag(t, cs, k, n.tag@))
                    + seq![']']
            } else {
                n.tag@
            },
        }
    }
}

/// Appends the characters of `b` to `a`.
fn append_chars(a: &mut Vec<char>, b: &[char])
    ensures
        final(a)@ == old(a)@ + b@,
{
    let ghost a0 = a@;
    let mut i: usize = 0;
    while i < b.len()
        invariant
            i <= b@.len(),
            a@ == a0 + b@.take(i as int),
        decreases b@.len() - i,
    {
        a.push(b[i]);
        assert(b@.take(i as int).push(b@[i as int]) == b@.take(i + 1));
        i = i + 1;
    }
    assert(b@.take(b@.len() as int) == b@);
}

impl ElementTree {
    fn path_chars(&self, el: usize) -> (r: Vec<char>)
        requires
            self.wf(),
            self.valid(el),
        ensures
            r@ == path_of(self@, el as int),
        decreases el,
    {
        let ghost t = self@;
        proof {
            assert(node_wf(t, el as int));
        }
        match &self.nodes[el].id {
            Some(id) => {
                let mut out: Vec<char> = Vec::new();
                out.push('#');
                let idc = chars_of(id.as_str());
                append_chars(&mut out, idc.as_slice());
                out
            },
            None => match self.nodes[el].parent {
                None => chars_of(self.nodes[el].tag.as_str()),
                Some(p) => {
                    let mut out = self.path_chars(p);
                    let cs = &self.nodes[p].children;
                    let tag = &self.nodes[el].tag;
                    let mut count: u64 = 0;
                    let mut k: usize = 0;
                    proof {
                        assert(node_wf(t, p as int));
                        assert(cs@.contains(el));
                    }
                    while k < cs.len() && cs[k] != el
                        invariant
                            self.wf(),
                            t == self@,
                            cs@ == t[p as int].children@,
                            p < el < t.len(),
                            tag@ == t[el as int].tag@,
                            k <= cs@.len(),
                            cs@.contains(el),
                            forall|j: int| 0 <= j < k ==> cs@[j] != el,
                            forall|j: int| 0 <= j < cs@.len() ==> #[trigger] cs@[j] < t.len(),
                            count == count_tag(t, cs@, k as int, tag@),
                            count <= k,
                        decreases cs@.len() - k,
                    {
                        if self.nodes[cs[k]].tag == *tag {
                            count = count + 1;
                        }
                        k = k + 1;
                    }
                    proof {
                        if k == cs@.len() {
                            let j = choose|j: int| 0 <= j < cs@.len() && cs@[j] == el;
                            assert(false);
                        }
                        lemma_position_of(cs@, el, k as int);
                    }
                    out.push('.');
                    let tc = chars_of(tag.as_str());
                    append_chars(&mut out, tc.as_slice());
                    out.push('[');
                    let d = decimal_chars(count);
                    append_chars(&mut out, d.as_slice());
                    out.push(']');
                    out
                },
            },
        }
    }

    /// The path that names the element (as `#id` when it has an id).
    pub fn element_path(&self, el: usize) -> (r: String)
        requires
            self.wf(),
            self.valid(el),
        ensures
            r@ == path_of(self@, el as int),
    {
        let v = self.path_chars(el);
        string_of(v.as_slice())
    }
}

/// What `find_below` finds satisfies the test and comes after `el` in the
/// tree.
pub proof fn lemma_find_below_sound(t: Seq<ElementNode>, el: int, pred: spec_fn(usize) -> bool)
    requires
        tree_wf(t),
        0 <= el < t.len(),
    ensures
        find_below(t, el, pred) matches Some(x) ==> pred(x) && el < x < t.len(),
    decreases t.len() - el, t[el].children@.len() + 1,
{
    assert(node_wf(t, el));
    lemma_find_among_sound(t, el, t[el].children@, pred);
}

proof fn lemma_find_among_sound(t: Seq<ElementNode>, el: int, cs: Seq<usize>, pred: spec_fn(usize) -> bool)
    requires
        tree_wf(t),
        0 <= el < t.len(),
        forall|k: int| 0 <= k < cs.len() ==> el < #[trigger] cs[k] < t.len(),
    ensures
        find_among(t, el, cs, pred) matches Some(x) ==> pred(x) && el < x < t.len(),
    decreases t.len() - el, cs.len(),
{
    if cs.len() > 0 {
        let c = cs[0];
        if !pred(c) {
            lemma_find_below_sound(t, c as int, pred);
            assert forall|k: int| 0 <= k < cs.drop_first().len() implies el < #[trigger] cs.drop_first()[k]
                < t.len() by {
                assert(cs.drop_first()[k] == cs[k + 1]);
            }
            lemma_find_among_sound(t, el, cs.drop_first(), pred);
        }
    }
}

} // verus!
