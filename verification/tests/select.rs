use conapp::ui::element::ElementTree;
use conapp::ui::select::{ItemValue, SelectKey, SelectValue};
use conapp::value::Key;

fn select_of(n: usize) -> (ElementTree, usize, Vec<usize>) {
    let mut tree = ElementTree::new("body");
    let sel = tree.add_child(0, "select");
    let mut items = Vec::new();
    for _ in 0..n {
        items.push(tree.add_child(sel, "item"));
    }
    (tree, sel, items)
}

#[test]
fn arrows_move_the_hover_mark() {
    let (mut tree, sel, items) = select_of(3);
    assert!(!tree.select_handle_key(sel, SelectKey::Down));
    assert!(tree.has_prop(items[0], "hover"));
    tree.select_handle_key(sel, SelectKey::Down);
    assert!(tree.has_prop(items[1], "hover"));
    assert!(!tree.has_prop(items[0], "hover"));
    tree.select_handle_key(sel, SelectKey::Down);
    tree.select_handle_key(sel, SelectKey::Down);
    assert!(tree.has_prop(items[0], "hover"));
    tree.select_handle_key(sel, SelectKey::Up);
    assert!(tree.has_prop(items[2], "hover"));
    tree.select_handle_key(sel, SelectKey::Up);
    assert!(tree.has_prop(items[1], "hover"));
    assert_eq!(tree.first_child_with_prop(sel, "hover"), Some(1));
}

#[test]
fn up_from_nothing_hovers_the_last() {
    let (mut tree, sel, items) = select_of(3);
    tree.select_handle_key(sel, SelectKey::Up);
    assert!(tree.has_prop(items[2], "hover"));
    assert!(!tree.select_handle_key(sel, SelectKey::Other));
    assert!(tree.has_prop(items[2], "hover"));
}

#[test]
fn activate_checks_one_item() {
    let (mut tree, sel, items) = select_of(3);
    tree.add_prop(sel, "index");
    assert_eq!(tree.select_value(sel), None);
    assert!(tree.select_handle_key(sel, SelectKey::Activate));
    assert!(tree.has_prop(items[0], "checked"));
    assert_eq!(tree.select_value(sel), Some(SelectValue::One(ItemValue::Index(0))));
    tree.select_handle_key(sel, SelectKey::Down);
    tree.select_handle_key(sel, SelectKey::Down);
    tree.select_handle_key(sel, SelectKey::Activate);
    assert!(!tree.has_prop(items[0], "checked"));
    assert!(tree.has_prop(items[1], "checked"));
    assert_eq!(tree.select_value(sel), Some(SelectValue::One(ItemValue::Index(1))));
}

#[test]
fn multiple_select_toggles() {
    let (mut tree, sel, items) = select_of(3);
    for (i, name) in ["Apple", "Banana", "Carrot"].iter().enumerate() {
        tree.set_text(items[i], name);
        tree.select_item_finish(items[i]);
    }
    tree.add_prop(sel, "multiple");
    tree.select_handle_key(sel, SelectKey::Activate);
    tree.select_handle_key(sel, SelectKey::Down);
    tree.select_handle_key(sel, SelectKey::Down);
    tree.select_handle_key(sel, SelectKey::Activate);
    assert!(tree.has_prop(items[0], "checked"));
    assert!(tree.has_prop(items[1], "checked"));
    assert_eq!(
        tree.select_value(sel),
        Some(SelectValue::List(vec![
            ItemValue::Value(Key::Text("Apple".to_string())),
            ItemValue::Value(Key::Text("Banana".to_string())),
        ]))
    );
    tree.select_handle_key(sel, SelectKey::Activate);
    assert_eq!(
        tree.select_value(sel),
        Some(SelectValue::List(vec![ItemValue::Value(Key::Text("Apple".to_string()))]))
    );
}

#[test]
fn clicks_pick_items() {
    let (mut tree, sel, items) = select_of(2);
    tree.set_pos(sel, 0, 0);
    tree.set_size(sel, 10, 2);
    tree.set_pos(items[0], 0, 0);
    tree.set_size(items[0], 10, 1);
    tree.set_pos(items[1], 0, 1);
    tree.set_size(items[1], 10, 1);
    assert!(!tree.select_handle_click(sel, (20, 20)));
    assert!(tree.select_handle_click(sel, (3, 1)));
    assert!(tree.has_prop(items[1], "checked"));
    assert!(tree.has_prop(items[1], "hover"));
    assert!(tree.select_handle_click(sel, (3, 0)));
    assert!(tree.has_prop(items[0], "checked"));
    assert!(!tree.has_prop(items[1], "checked"));
    assert!(!tree.has_prop(items[1], "hover"));
}

#[test]
fn finish_keeps_only_the_first_check() {
    let (mut tree, sel, items) = select_of(3);
    tree.add_prop(items[1], "checked");
    tree.add_prop(items[2], "checked");
    tree.select_finish(sel, (10, 3));
    assert!(!tree.has_prop(items[1], "checked"));
    assert!(!tree.has_prop(items[2], "checked"));

    let (mut tree, sel, items) = select_of(3);
    tree.add_prop(sel, "multiple");
    tree.add_prop(items[1], "checked");
    tree.add_prop(items[2], "checked");
    tree.select_finish(sel, (10, 3));
    assert!(tree.has_prop(items[1], "checked"));
    assert!(tree.has_prop(items[2], "checked"));
}

#[test]
fn finish_sizes_the_select_with_its_margins() {
    let (mut tree, sel, _items) = select_of(3);
    tree.set_margin_left(sel, 2);
    tree.select_finish(sel, (10, 3));
    assert_eq!(tree.size(sel), Some((12, 3)));
}

#[test]
fn item_values_default_to_id_then_text() {
    let (mut tree, sel, items) = select_of(3);
    tree.set_text(items[0], "First");
    tree.select_item_finish(items[0]);
    tree.set_text(items[1], "Second");
    tree.set_id(items[1], "two");
    tree.select_item_finish(items[1]);
    tree.set_value(items[2], Some(Key::Index(7)));
    tree.set_text(items[2], "Third");
    tree.select_item_finish(items[2]);
    assert_eq!(tree.value(items[0]), &Some(Key::Text("First".to_string())));
    assert_eq!(tree.value(items[1]), &Some(Key::Text("two".to_string())));
    assert_eq!(tree.value(items[2]), &Some(Key::Index(7)));
    tree.add_prop(items[1], "checked");
    assert_eq!(tree.select_value(sel), Some(SelectValue::One(ItemValue::Value(Key::Text("two".to_string())))));
}
