//! A readable description of one element, in the form of Rust's `{:?}` for a
//! struct: `Element { tag: "div", id: "x", pos: (1, 2), ... }`.
use crate::text::{chars_of, decimal, decimal_chars, string_of};
use crate::ui::element::{ElementNode, ElementTree};
use crate::ui::Align;
use vstd::prelude::*;

verus! {

/// A text as `{:?}` writes it: in double quotes, with the characters that
/// need it escaped.
pub uninterp spec fn debug_quoted(s: Seq<char>) -> Seq<char>;

/// Whether `c` is printable ASCII other than `"` and `\`.
pub open spec fn plain_char(c: char) -> bool {
    0x20 <= (c as u32) <= 0x7e && c != '"' && c != '\\'
}

/// `{:?}` of a text (`<str as Debug>::fmt`). The contract names the result
/// and states what std documents of printable ASCII: characters other than
/// `"` and `\` stand as they are, between double quotes.
#[verifier::external_body]
fn quote(s: &str) -> (r: String)
    ensures
        r@ == debug_quoted(s@),
        (forall|i: int| 0 <= i < s@.len() ==> #[trigger] plain_char(s@[i])) ==> r@ == seq!['"'] + s@ + seq!['"'],
{
    format!("{:?}", s)
}

/// The pieces joined with `, `.
pub open spec fn join(items: Seq<Seq<char>>) -> Seq<char>
    decreases items.len(),
{
    if items.len() == 0 {
        seq![]
    } else if items.len() == 1 {
        items[0]
    } else {
        join(items.drop_last()) + seq![',', ' '] + items.last()
    }
}

/// An integer in decimal, with a minus sign when it is negative.
pub open spec fn int_text(i: int) -> Seq<char> {
    if i < 0 {
        seq!['-'] + decimal((-i) as nat)
    } else {
        decimal(i as nat)
    }
}

/// A pair as `{:?}` writes it: `(a, b)`.
pub open spec fn pair_text(a: int, b: int) -> Seq<char> {
    seq!['('] + int_text(a) + seq![',', ' '] + int_text(b) + seq![')']
}

/// The four sides as `{:?}` writes them: `[a, b, c, d]`.
pub open spec fn sides_text(v: Seq<u32>) -> Seq<char> {
    seq!['['] + join(seq![int_text(v[0] as int), int_text(v[1] as int), int_text(v[2] as int), int_text(v[3] as int)])
        + seq![']']
}

/// The name of an alignment.
pub open spec fn align_text(a: Align) -> Seq<char> {
    match a {
        Align::Min => "Min"@,
        Align::Center => "Center"@,
        Align::Max => "Max"@,
    }
}

/// Names as `{:?}` writes a set of texts: `{"a", "b"}` (in the element's
/// order).
pub open spec fn names_text(v: Seq<String>) -> Seq<char> {
    seq!['{'] + join(v.map_values(|s: String| debug_quoted(s@))) + seq!['}']
}

/// How an element is named from another one: `#` and its id, or its tag.
pub open spec fn name_of(n: ElementNode) -> Seq<char> {
    match n.id {
        Some(id) => seq!['#'] + id@,
        None => n.tag@,
    }
}

/// The elements `cs`, each by its name, quoted.
pub open spec fn child_names(t: Seq<ElementNode>, cs: Seq<usize>) -> Seq<Seq<char>> {
    cs.map_values(|c: usize| debug_quoted(name_of(t[c as int])))
}

/// The children of element `el`, each by its name, quoted: `["a", "#b"]`.
pub open spec fn children_text(t: Seq<ElementNode>, el: int) -> Seq<char> {
    seq!['['] + join(child_names(t, t[el].children@)) + seq![']']
}

/// One field: its name, `: ` and its value.
pub open spec fn field(name: Seq<char>, v: Seq<char>) -> Seq<char> {
    name + seq![':', ' '] + v
}

/// One field when the value is there, none otherwise.
pub open spec fn opt_field(name: Seq<char>, v: Option<Seq<char>>) -> Seq<Seq<char>> {
    match v {
        Some(x) => seq![field(name, x)],
        None => seq![],
    }
}

/// The alignment field when it is set.
pub open spec fn align_field(name: Seq<char>, a: Option<Align>) -> Seq<Seq<char>> {
    match a {
        Some(x) => seq![field(name, align_text(x))],
        None => seq![],
    }
}

/// Whether one of the four sides is not zero.
pub open spec fn any_side(v: Seq<u32>) -> bool {
    v[0] > 0 || v[1] > 0 || v[2] > 0 || v[3] > 0
}

/// The tag, id, parent, position, size, class and property fields of
/// element `el`.
pub open spec fn fields_head(t: Seq<ElementNode>, el: int) -> Seq<Seq<char>> {
    let n = t[el];
    seq![field("tag"@, debug_quoted(n.tag@))] + opt_field(
        "id"@,
        match n.id {
            Some(id) => Some(debug_quoted(id@)),
            None => None,
        },
    ) + opt_field(
        "parent"@,
        match n.parent {
            Some(p) => Some(debug_quoted(name_of(t[p as int]))),
            None => None,
        },
    ) + opt_field(
        "pos"@,
        match n.pos {
            Some(p) => Some(pair_text(p.0 as int, p.1 as int)),
            None => None,
        },
    ) + opt_field(
        "size"@,
        match n.size {
            Some(s) => Some(pair_text(s.0 as int, s.1 as int)),
            None => None,
        },
    ) + opt_field(
        "class"@,
        if n.classes@.len() > 0 {
            Some(names_text(n.classes@))
        } else {
            None
        },
    ) + opt_field(
        "props"@,
        if n.props@.len() > 0 {
            Some(names_text(n.props@))
        } else {
            None
        },
    )
}

/// The alignment, spacing, text and children fields of element `el`.
pub open spec fn fields_tail(t: Seq<ElementNode>, el: int) -> Seq<Seq<char>> {
    fields_align(t, el) + fields_rest(t, el)
}

/// The alignment fields of element `el`.
pub open spec fn fields_align(t: Seq<ElementNode>, el: int) -> Seq<Seq<char>> {
    let n = t[el];
    align_field("align"@, n.align) + align_field("valign"@, n.valign) + align_field("anchor"@, n.anchor)
        + align_field("vanchor"@, n.vanchor)
}

/// The padding, margin, text and children fields of element `el`.
pub open spec fn fields_rest(t: Seq<ElementNode>, el: int) -> Seq<Seq<char>> {
    let n = t[el];
    opt_field(
        "pad"@,
        if any_side(n.pad@) {
            Some(sides_text(n.pad@))
        } else {
            None
        },
    ) + opt_field(
        "margin"@,
        if any_side(n.margin@) {
            Some(sides_text(n.margin@))
        } else {
            None
        },
    ) + opt_field(
        "text"@,
        match n.text {
            Some(s) => Some(debug_quoted(s@)),
            None => None,
        },
    ) + opt_field(
        "children"@,
        if n.children@.len() > 0 {
            Some(children_text(t, el))
        } else {
            None
        },
    )
}

/// The fields that describe element `el`, in order: its tag; its id; its
/// parent (by `#` and id, or by tag); its position and size; its classes and
/// properties; its alignments; its padding and margins when one side is not
/// zero; its text; and its children.
pub open spec fn element_fields(t: Seq<ElementNode>, el: int) -> Seq<Seq<char>> {
    fields_head(t, el) + fields_tail(t, el)
}

/// The description of element `el`: `Element { ` and its fields joined with
/// `, `, then ` }`.
pub open spec fn element_debug(t: Seq<ElementNode>, el: int) -> Seq<char> {
    "Element { "@ + join(element_fields(t, el)) + " }"@
}

/// Appends `s` to `v`.
fn push_all(v: &mut Vec<char>, s: &[char])
    ensures
        final(v)@ == old(v)@ + s@,
{
    let mut i: usize = 0;
    while i < s.len()
        invariant
            i <= s@.len(),
            v@ == old(v)@ + s@.take(i as int),
        decreases s@.len() - i,
    {
        v.push(s[i]);
        assert(old(v)@ + s@.take(i + 1) == old(v)@ + s@.take(i as int) + seq![s@[i as int]]);
        i = i + 1;
    }
    assert(s@.take(s@.len() as int) == s@);
}

/// The view of a list of pieces.
pub open spec fn pieces_view(v: Seq<Vec<char>>) -> Seq<Seq<char>> {
    v.map_values(|p: Vec<char>| p@)
}

/// Appends a piece, keeping track of the view.
fn push_piece(v: &mut Vec<Vec<char>>, x: Vec<char>)
    ensures
        pieces_view(final(v)@) == pieces_view(old(v)@).push(x@),
{
    let ghost before = v@;
    v.push(x);
    assert(pieces_view(v@) =~= pieces_view(before).push(x@));
}

/// The pieces joined with `, `, computed.
fn join_exec(items: &Vec<Vec<char>>) -> (r: Vec<char>)
    ensures
        r@ == join(pieces_view(items@)),
{
    let mut out: Vec<char> = Vec::new();
    let mut i: usize = 0;
    while i < items.len()
        invariant
            i <= items@.len(),
            out@ == join(pieces_view(items@.take(i as int))),
        decreases items@.len() - i,
    {
        let ghost before = pieces_view(items@.take(i as int));
        let ghost after = pieces_view(items@.take(i + 1));
        assert(after.drop_last() == before);
        assert(after.last() == items@[i as int]@);
        if i > 0 {
            out.push(',');
            out.push(' ');
        }
        push_all(&mut out, items[i].as_slice());
        proof {
            if i == 0 {
                assert(after.len() == 1);
            } else {
                assert(out@ == join(before) + seq![',', ' '] + items@[i as int]@);
            }
        }
        i = i + 1;
    }
    assert(items@.take(items@.len() as int) == items@);
    out
}

/// `{:?}` of a text, as characters.
fn quoted(s: &str) -> (r: Vec<char>)
    ensures
        r@ == debug_quoted(s@),
{
    let q = quote(s);
    chars_of(q.as_str())
}

/// An integer in decimal, computed.
fn int_chars(i: i64) -> (r: Vec<char>)
    requires
        i > i64::MIN,
    ensures
        r@ == int_text(i as int),
{
    if i < 0 {
        let mut v: Vec<char> = Vec::new();
        v.push('-');
        let d = decimal_chars((-i) as u64);
        push_all(&mut v, d.as_slice());
        v
    } else {
        decimal_chars(i as u64)
    }
}

/// A pair, computed.
fn pair_chars(a: i64, b: i64) -> (r: Vec<char>)
    requires
        a > i64::MIN,
        b > i64::MIN,
    ensures
        r@ == pair_text(a as int, b as int),
{
    let mut v: Vec<char> = Vec::new();
    v.push('(');
    push_all(&mut v, int_chars(a).as_slice());
    v.push(',');
    v.push(' ');
    push_all(&mut v, int_chars(b).as_slice());
    v.push(')');
    assert(v@ == pair_text(a as int, b as int));
    v
}

/// The four sides, computed.
fn sides_chars(s: [u32; 4]) -> (r: Vec<char>)
    ensures
        r@ == sides_text(s@),
{
    let mut items: Vec<Vec<char>> = Vec::new();
    push_piece(&mut items, int_chars(s[0] as i64));
    push_piece(&mut items, int_chars(s[1] as i64));
    push_piece(&mut items, int_chars(s[2] as i64));
    push_piece(&mut items, int_chars(s[3] as i64));
    assert(pieces_view(items@) == seq![
        int_text(s@[0] as int),
        int_text(s@[1] as int),
        int_text(s@[2] as int),
        int_text(s@[3] as int),
    ]);
    let mut v: Vec<char> = Vec::new();
    v.push('[');
    push_all(&mut v, join_exec(&items).as_slice());
    v.push(']');
    v
}

/// The name of an alignment, computed.
fn align_chars(a: Align) -> (r: Vec<char>)
    ensures
        r@ == align_text(a),
{
    match a {
        Align::Min => chars_of("Min"),
        Align::Center => chars_of("Center"),
        Align::Max => chars_of("Max"),
    }
}

/// A field, computed.
fn field_chars(name: &str, v: &[char]) -> (r: Vec<char>)
    ensures
        r@ == field(name@, v@),
{
    let mut out = chars_of(name);
    out.push(':');
    out.push(' ');
    push_all(&mut out, v);
    out
}

/// Names, quoted and in braces, computed.
fn names_chars(v: &Vec<String>) -> (r: Vec<char>)
    ensures
        r@ == names_text(v@),
{
    let mut items: Vec<Vec<char>> = Vec::new();
    let mut i: usize = 0;
    while i < v.len()
        invariant
            i <= v@.len(),
            pieces_view(items@) == v@.take(i as int).map_values(|s: String| debug_quoted(s@)),
        decreases v@.len() - i,
    {
        push_piece(&mut items, quoted(v[i].as_str()));
        assert(v@.take(i + 1).map_values(|s: String| debug_quoted(s@)) == v@.take(i as int).map_values(
            |s: String| debug_quoted(s@),
        ).push(debug_quoted(v@[i as int]@)));
        i = i + 1;
    }
    assert(v@.take(v@.len() as int) == v@);
    let mut out: Vec<char> = Vec::new();
    out.push('{');
    push_all(&mut out, join_exec(&items).as_slice());
    out.push('}');
    out
}

impl ElementTree {
    /// How element `c` is named from another one, computed.
    fn name_chars(&self, c: usize) -> (r: Vec<char>)
        requires
            self.valid(c),
        ensures
            r@ == name_of(self@[c as int]),
    {
        match self.id(c) {
            Some(id) => {
                let mut v: Vec<char> = Vec::new();
                v.push('#');
                push_all(&mut v, chars_of(id.as_str()).as_slice());
                v
            },
            None => chars_of(self.tag(c).as_str()),
        }
    }

    /// The children of `el`, each by its name, computed.
    fn children_chars(&self, el: usize) -> (r: Vec<char>)
        requires
            self.wf(),
            self.valid(el),
        ensures
            r@ == children_text(self@, el as int),
    {
        proof {
            assert(crate::ui::element::node_wf(self@, el as int));
        }
        let cs = self.children(el);
        let mut items: Vec<Vec<char>> = Vec::new();
        let mut i: usize = 0;
        while i < cs.len()
            invariant
                self.wf(),
                self.valid(el),
                cs@ == self@[el as int].children@,
                i <= cs@.len(),
                forall|k: int| 0 <= k < cs@.len() ==> #[trigger] cs@[k] < self@.len(),
                pieces_view(items@) == child_names(self@, cs@.take(i as int)),
            decreases cs@.len() - i,
        {
            let c = cs[i];
            let name = self.name_chars(c);
            let s = string_of(name.as_slice());
            push_piece(&mut items, quoted(s.as_str()));
            assert(child_names(self@, cs@.take(i + 1)) =~= child_names(self@, cs@.take(i as int)).push(
                debug_quoted(name_of(self@[c as int])),
            ));
            i = i + 1;
        }
        assert(cs@.take(cs@.len() as int) == cs@);
        let mut out: Vec<char> = Vec::new();
        out.push('[');
        push_all(&mut out, join_exec(&items).as_slice());
        out.push(']');
        out
    }

    /// The head fields of element `el`, computed.
    #[verifier::rlimit(100)]
    fn head_fields(&self, el: usize) -> (r: Vec<Vec<char>>)
        requires
            self.wf(),
            self.valid(el),
        ensures
            pieces_view(r@) == fields_head(self@, el as int),
    {
        let ghost t = self@;
        let ghost n = t[el as int];
        proof {
            assert(crate::ui::element::node_wf(t, el as int));
        }
        let mut fields: Vec<Vec<char>> = Vec::new();
        push_piece(&mut fields, field_chars("tag", quoted(self.tag(el).as_str()).as_slice()));
        let ghost acc0 = seq![field("tag"@, debug_quoted(n.tag@))];
        assert(pieces_view(fields@) == acc0);
        match self.id(el) {
            Some(id) => push_piece(&mut fields, field_chars("id", quoted(id.as_str()).as_slice())),
            None => {},
        }
        let ghost acc1 = acc0 + opt_field(
            "id"@,
            match n.id {
                Some(id) => Some(debug_quoted(id@)),
                None => None,
            },
        );
        assert(pieces_view(fields@) == acc1);
        match self.parent(el) {
            Some(p) => {
                let name = self.name_chars(p);
                let s = string_of(name.as_slice());
                push_piece(&mut fields, field_chars("parent", quoted(s.as_str()).as_slice()));
            },
            None => {},
        }
        let ghost acc2 = acc1 + opt_field(
            "parent"@,
            match n.parent {
                Some(p) => Some(debug_quoted(name_of(t[p as int]))),
                None => None,
            },
        );
        assert(pieces_view(fields@) == acc2);
        match self.pos(el) {
            Some(p) => push_piece(&mut fields, field_chars("pos", pair_chars(p.0 as i64, p.1 as i64).as_slice())),
            None => {},
        }
        let ghost acc3 = acc2 + opt_field(
            "pos"@,
            match n.pos {
                Some(p) => Some(pair_text(p.0 as int, p.1 as int)),
                None => None,
            },
        );
        assert(pieces_view(fields@) == acc3);
        match self.size(el) {
            Some(s) => push_piece(&mut fields, field_chars("size", pair_chars(s.0 as i64, s.1 as i64).as_slice())),
            None => {},
        }
        let ghost acc4 = acc3 + opt_field(
            "size"@,
            match n.size {
                Some(s) => Some(pair_text(s.0 as int, s.1 as int)),
                None => None,
            },
        );
        assert(pieces_view(fields@) == acc4);
        if self.classes(el).len() > 0 {
            push_piece(&mut fields, field_chars("class", names_chars(self.classes(el)).as_slice()));
        }
        let ghost acc5 = acc4 + opt_field(
            "class"@,
            if n.classes@.len() > 0 {
                Some(names_text(n.classes@))
            } else {
                None
            },
        );
        assert(pieces_view(fields@) == acc5);
        if self.props(el).len() > 0 {
            push_piece(&mut fields, field_chars("props", names_chars(self.props(el)).as_slice()));
        }
        let ghost acc6 = acc5 + opt_field(
            "props"@,
            if n.props@.len() > 0 {
                Some(names_text(n.props@))
            } else {
                None
            },
        );
        assert(pieces_view(fields@) == acc6);
        fields
    }

    /// The alignment fields of element `el`, computed.
    #[verifier::rlimit(100)]
    fn align_fields(&self, el: usize) -> (r: Vec<Vec<char>>)
        requires
            self.wf(),
            self.valid(el),
        ensures
            pieces_view(r@) == fields_align(self@, el as int),
    {
        let ghost t = self@;
        let ghost n = t[el as int];
        let mut fields: Vec<Vec<char>> = Vec::new();
        assert(pieces_view(fields@) =~= Seq::<Seq<char>>::empty());
        match self.align(el) {
            Some(a) => push_piece(&mut fields, field_chars("align", align_chars(a).as_slice())),
            None => {},
        }
        let ghost acc7 = align_field("align"@, n.align);
        assert(pieces_view(fields@) =~= acc7);
        match self.valign(el) {
            Some(a) => push_piece(&mut fields, field_chars("valign", align_chars(a).as_slice())),
            None => {},
        }
        let ghost acc8 = acc7 + align_field("valign"@, n.valign);
        assert(pieces_view(fields@) == acc8);
        match self.anchor(el) {
            Some(a) => push_piece(&mut fields, field_chars("anchor", align_chars(a).as_slice())),
            None => {},
        }
        let ghost acc9 = acc8 + align_field("anchor"@, n.anchor);
        assert(pieces_view(fields@) == acc9);
        match self.vanchor(el) {
            Some(a) => push_piece(&mut fields, field_chars("vanchor", align_chars(a).as_slice())),
            None => {},
        }
        let ghost acc10 = acc9 + align_field("vanchor"@, n.vanchor);
        assert(pieces_view(fields@) == acc10);
        fields
    }

    /// The padding, margin, text and children fields of element `el`,
    /// computed.
    #[verifier::rlimit(100)]
    fn rest_fields(&self, el: usize) -> (r: Vec<Vec<char>>)
        requires
            self.wf(),
            self.valid(el),
        ensures
            pieces_view(r@) == fields_rest(self@, el as int),
    {
        let ghost t = self@;
        let ghost n = t[el as int];
        let mut fields: Vec<Vec<char>> = Vec::new();
        let pad = self.pad(el);
        if pad[0] > 0 || pad[1] > 0 || pad[2] > 0 || pad[3] > 0 {
            push_piece(&mut fields, field_chars("pad", sides_chars(pad).as_slice()));
        }
        let ghost acc11 = opt_field(
            "pad"@,
            if any_side(n.pad@) {
                Some(sides_text(n.pad@))
            } else {
                None
            },
        );
        assert(pieces_view(fields@) =~= acc11);
        let margin = self.margin(el);
        if margin[0] > 0 || margin[1] > 0 || margin[2] > 0 || margin[3] > 0 {
            push_piece(&mut fields, field_chars("margin", sides_chars(margin).as_slice()));
        }
        let ghost acc12 = acc11 + opt_field(
            "margin"@,
            if any_side(n.margin@) {
                Some(sides_text(n.margin@))
            } else {
                None
            },
        );
        assert(pieces_view(fields@) == acc12);
        match self.text(el) {
            Some(s) => push_piece(&mut fields, field_chars("text", quoted(s.as_str()).as_slice())),
            None => {},
        }
        let ghost acc13 = acc12 + opt_field(
            "text"@,
            match n.text {
                Some(s) => Some(debug_quoted(s@)),
                None => None,
            },
        );
        assert(pieces_view(fields@) == acc13);
        if self.children(el).len() > 0 {
            push_piece(&mut fields, field_chars("children", self.children_chars(el).as_slice()));
        }
        assert(pieces_view(fields@) == fields_rest(t, el as int));
        fields
    }

    /// The tail fields of element `el`, computed.
    fn tail_fields(&self, el: usize) -> (r: Vec<Vec<char>>)
        requires
            self.wf(),
            self.valid(el),
        ensures
            pieces_view(r@) == fields_tail(self@, el as int),
    {
        let mut fields = self.align_fields(el);
        let mut rest = self.rest_fields(el);
        let ghost a = fields@;
        let ghost b = rest@;
        fields.append(&mut rest);
        assert(pieces_view(fields@) =~= pieces_view(a) + pieces_view(b));
        fields
    }

    /// A description of element `el` in the form of Rust's `{:?}` for a
    /// struct, as `element_debug` says.
    pub fn debug_string(&self, el: usize) -> (r: String)
        requires
            self.wf(),
            self.valid(el),
        ensures
            r@ == element_debug(self@, el as int),
    {
        let mut fields = self.head_fields(el);
        let mut tail = self.tail_fields(el);
        let ghost h = fields@;
        let ghost tl = tail@;
        fields.append(&mut tail);
        assert(pieces_view(fields@) =~= pieces_view(h) + pieces_view(tl));
        let mut out = chars_of("Element { ");
        push_all(&mut out, join_exec(&fields).as_slice());
        push_all(&mut out, chars_of(" }").as_slice());
        string_of(out.as_slice())
    }
}

} // verus!
