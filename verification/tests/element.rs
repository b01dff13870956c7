use conapp::ui::layout::{frame_inner_size, frame_size, layout_frame, span_fit_size};
use conapp::css::Selector;
use conapp::ui::element::ElementTree;
use conapp::ui::layout::{body_layout_children, layout_children, layout_span, span_children_size};
use conapp::ui::Align;

#[test]
fn contains() {
    let mut tree = ElementTree::new("text");
    let node = 0;

    assert!(tree.pos(node).is_none());
    assert!(tree.size(node).is_none());
    assert_eq!(tree.contains(node, (6, 6)), false);

    tree.set_outer_pos(node, 5, 5);
    assert_eq!(tree.contains(node, (6, 6)), false);

    tree.set_size(node, 10, 1);
    assert_eq!(tree.contains(node, (5, 4)), false);
    assert_eq!(tree.contains(node, (4, 5)), false);
    assert_eq!(tree.contains(node, (5, 5)), true);
    assert_eq!(tree.contains(node, (14, 5)), true);
    assert_eq!(tree.contains(node, (15, 5)), false);
    assert_eq!(tree.contains(node, (5, 6)), false);
    assert_eq!(tree.contains(node, (6, 6)), false);

    tree.set_outer_pos(node, 8, 3);
    assert_eq!(tree.contains(node, (6, 5)), false);
}

fn sample() -> (ElementTree, usize, usize, usize, usize) {
    let mut tree = ElementTree::new("body");
    let div = tree.add_child(0, "div");
    let a = tree.add_child(div, "button");
    let b = tree.add_child(div, "text");
    let c = tree.add_child(div, "button");
    (tree, div, a, b, c)
}

#[test]
fn tree_structure() {
    let (mut tree, div, a, b, c) = sample();
    assert_eq!(tree.len(), 5);
    assert!(tree.is_root(0));
    assert!(!tree.is_root(div));
    assert_eq!(tree.parent(a), Some(div));
    assert_eq!(tree.child_count(div), 3);
    assert_eq!(tree.first_child(div), Some(a));
    assert_eq!(tree.last_child(div), Some(c));
    assert_eq!(tree.first_child(a), None);
    assert_eq!(tree.child_position(div, b), Some(1));
    assert_eq!(tree.child_position(div, 0), None);
    assert_eq!(tree.get_child_by_index(div, 2), Some(c));
    assert_eq!(tree.get_child_by_index(div, 3), None);
    assert_eq!(tree.tag(b), "text");
    assert!(tree.has_tag(c, "button"));

    tree.set_id(c, "ok");
    assert!(tree.has_id(c, "ok"));
    assert!(!tree.has_id(a, "ok"));
    assert!(tree.has_any_id(c));
    assert_eq!(tree.get_child_by_id(div, "ok"), Some(c));
    assert_eq!(tree.get_child_by_id(0, "ok"), None);
    assert_eq!(tree.find_by_id(0, "ok"), Some(c));
    assert_eq!(tree.find_by_id(0, "nope"), None);
    assert_eq!(tree.get_child_by_tag(div, "button"), Some(a));
    assert_eq!(tree.find_by_tag(0, "text"), Some(b));
    assert_eq!(tree.find_by_tag(0, "body"), None);
}

#[test]
fn classes_and_props() {
    let (mut tree, _div, a, _b, _c) = sample();
    tree.add_class(a, "big");
    tree.add_class(a, "big");
    tree.add_class(a, "");
    assert!(tree.has_class(a, "big"));
    assert!(!tree.has_class(a, ""));

    tree.add_prop(a, "checked");
    assert!(tree.has_prop(a, "checked"));
    tree.toggle_prop(a, "checked");
    assert!(!tree.has_prop(a, "checked"));
    tree.toggle_prop(a, "checked");
    assert!(tree.has_prop(a, "checked"));
    tree.remove_prop(a, "checked");
    assert!(!tree.has_prop(a, "checked"));
    tree.remove_prop(a, "checked");
    assert!(!tree.has_prop(a, "checked"));
}

#[test]
fn pads_margins_and_sizes() {
    let (mut tree, div, _a, _b, _c) = sample();
    tree.set_size(div, 10, 4);
    tree.set_pad(div, 1);
    assert_eq!(tree.pad(div), [1, 1, 1, 1]);
    tree.set_pad_left(div, 3);
    assert_eq!(tree.pad(div), [3, 1, 1, 1]);
    assert_eq!(tree.outer_size(div), (14, 6));

    tree.set_margin_left(div, 2);
    assert_eq!(tree.margin(div), [2, 0, 0, 0]);
    assert_eq!(tree.size(div), Some((12, 4)));

    tree.set_pos(div, 5, 7);
    assert_eq!(tree.inner_pos(div), Some((7, 7)));
    tree.set_outer_pos(div, 0, 0);
    assert_eq!(tree.pos(div), Some((3, 1)));
}

#[test]
fn selector_matching() {
    let (mut tree, div, a, b, c) = sample();
    tree.set_id(c, "ok");
    tree.add_class(a, "big");
    tree.add_prop(b, "hover");

    assert!(Selector::new("button").matches(&tree, a));
    assert!(!Selector::new("button").matches(&tree, b));
    assert!(Selector::new("#ok").matches(&tree, c));
    assert!(Selector::new(".big").matches(&tree, a));
    assert!(!Selector::new(".big").matches(&tree, c));
    assert!(Selector::new(":hover").matches(&tree, b));
    assert!(Selector::new("div > button").matches(&tree, a));
    assert!(!Selector::new("body > button").matches(&tree, a));
    assert!(Selector::new("body button").matches(&tree, a));
    assert!(!Selector::new("text button").matches(&tree, a));
    assert!(Selector::new("*").matches(&tree, a));
    assert!(Selector::new("div").matches(&tree, div));

    // structure alone: `*` names the root, classes and properties count as held
    assert!(Selector::new("*").is_base_match(&tree, 0));
    assert!(!Selector::new("*").is_base_match(&tree, a));
    assert!(Selector::new("button.other").is_base_match(&tree, a));
    assert!(!Selector::new("button.other").matches(&tree, a));
    assert!(Selector::new("body #ok").is_base_match(&tree, c));
}

#[test]
fn paths_and_leaves() {
    let (mut tree, div, a, b, c) = sample();
    assert_eq!(tree.element_path(0), "body");
    assert_eq!(tree.element_path(div), "body.div[0]");
    assert_eq!(tree.element_path(a), "body.div[0].button[0]");
    assert_eq!(tree.element_path(c), "body.div[0].button[1]");
    tree.set_id(div, "main");
    assert_eq!(tree.element_path(b), "#main.text[0]");

    tree.set_pos(a, 0, 0);
    tree.set_size(a, 4, 1);
    tree.set_pos(b, 0, 1);
    tree.set_size(b, 4, 1);
    assert_eq!(tree.leaf_at(0, (1, 1)), Some(b));
    assert_eq!(tree.leaf_at(0, (1, 0)), Some(a));
    assert_eq!(tree.leaf_at(0, (9, 9)), None);
}

#[test]
fn column_layout() {
    let (mut tree, div, a, b, c) = sample();
    tree.set_size(a, 6, 1);
    tree.set_size(b, 4, 2);
    tree.set_size(c, 6, 1);
    tree.set_pad_top(c, 1);
    tree.set_pos(div, 10, 20);
    tree.set_margin(div, 1);
    layout_children(&mut tree, div);
    assert_eq!(tree.pos(a), Some((11, 21)));
    assert_eq!(tree.pos(b), Some((11, 22)));
    assert_eq!(tree.pos(c), Some((11, 25)));
}

#[test]
fn body_layout() {
    let mut tree = ElementTree::new("body");
    let a = tree.add_child(0, "button");
    let b = tree.add_child(0, "button");
    let fixed = tree.add_child(0, "text");
    tree.set_size(0, 20, 10);
    tree.set_align(0, Align::Center);
    tree.set_valign(0, Align::Max);
    tree.set_size(a, 6, 1);
    tree.set_size(b, 10, 3);
    tree.set_size(fixed, 2, 2);
    tree.set_pos(fixed, 1, 1);
    body_layout_children(&mut tree, 0);
    // the unplaced children take 4 rows of the 10, so the column starts at 6
    assert_eq!(tree.pos(a), Some((7, 6)));
    assert_eq!(tree.pos(b), Some((5, 7)));
    assert_eq!(tree.pos(fixed), Some((1, 1)));
}

#[test]
fn span_layout() {
    let mut tree = ElementTree::new("span");
    let a = tree.add_child(0, "button");
    let b = tree.add_child(0, "button");
    tree.set_size(a, 8, 1);
    tree.set_pad_left(a, 1);
    tree.set_pad_right(a, 1);
    tree.set_size(b, 8, 1);
    tree.set_pad_left(b, 1);
    tree.set_pad_right(b, 1);
    assert_eq!(span_children_size(&tree, 0, 1), (21, 1));
    assert_eq!(span_children_size(&tree, 0, 0), (20, 1));

    tree.set_size(0, 25, 3);
    tree.set_pos(0, 0, 0);
    tree.set_valign(0, Align::Center);
    layout_span(&mut tree, 0, 1);
    assert_eq!(tree.pos(a), Some((1, 1)));
    assert_eq!(tree.pos(b), Some((12, 1)));
}

#[test]
fn frame_sizes_and_layout() {
    assert_eq!(frame_size((0, 0), (10, 3), [1, 1, 1, 1], None), (14, 7));
    assert_eq!(frame_size((0, 0), (10, 3), [0, 0, 0, 0], Some(20)), (24, 5));
    assert_eq!(frame_size((30, 0), (10, 3), [0, 0, 0, 0], Some(20)), (30, 5));
    assert_eq!(frame_size((30, 9), (10, 3), [0, 0, 0, 0], None), (30, 9));

    let mut tree = ElementTree::new("frame");
    assert_eq!(frame_inner_size(&tree, 0), (0, 0));
    let a = tree.add_child(0, "text");
    let b = tree.add_child(0, "button");
    tree.set_size(0, 20, 10);
    tree.set_margin(0, 1);
    assert_eq!(frame_inner_size(&tree, 0), (16, 6));
    tree.set_pos(0, 0, 0);
    tree.set_valign(0, Align::Center);
    tree.set_size(a, 6, 1);
    tree.set_size(b, 8, 1);
    tree.set_anchor(b, Align::Max);
    layout_frame(&mut tree, 0, 2);
    assert_eq!(tree.pos(a), Some((2, 4)));
    assert_eq!(tree.pos(b), Some((10, 5)));

    let mut tree = ElementTree::new("span");
    let c = tree.add_child(0, "button");
    tree.set_size(c, 4, 1);
    let d = tree.add_child(0, "button");
    tree.set_size(d, 4, 2);
    tree.set_margin(0, 1);
    span_fit_size(&mut tree, 0, 2);
    assert_eq!(tree.size(0), Some((12, 4)));
    span_fit_size(&mut tree, 0, 5);
    assert_eq!(tree.size(0), Some((12, 4)));
}
