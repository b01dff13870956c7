use conapp::ui::element::ElementTree;
use conapp::ui::Align;

#[test]
fn element_debug_lists_set_fields() {
    let mut tree = ElementTree::new("body");
    let div = tree.add_child(0, "div");
    let _span = tree.add_child(div, "span");
    let b = tree.add_child(div, "button");
    tree.set_id(b, "ok");
    tree.set_id(div, "x");
    tree.set_pos(div, 1, -2);
    tree.add_class(div, "a");
    tree.add_prop(div, "p");
    tree.set_align(div, Align::Max);
    tree.set_margin_left(div, 2);
    tree.set_size(div, 3, 4);
    tree.set_text(div, "hi \"there\"");
    assert_eq!(
        tree.debug_string(div),
        "Element { tag: \"div\", id: \"x\", parent: \"body\", pos: (1, -2), size: (3, 4), \
         class: {\"a\"}, props: {\"p\"}, align: Max, margin: [2, 0, 0, 0], \
         text: \"hi \\\"there\\\"\", children: [\"span\", \"#ok\"] }"
    );
    assert_eq!(tree.debug_string(b), "Element { tag: \"button\", id: \"ok\", parent: \"#x\" }");
    assert_eq!(tree.debug_string(0), "Element { tag: \"body\", children: [\"#x\"] }");
}
