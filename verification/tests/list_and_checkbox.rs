use conapp::ui::checkbox::{checkbox_finish, CheckValue};
use conapp::ui::element::ElementTree;
use conapp::ui::list::list_finish;

fn list_with(heights: &[u32]) -> (ElementTree, usize, Vec<usize>) {
    let mut tree = ElementTree::new("body");
    let list = tree.add_child(0, "list");
    let mut items = Vec::new();
    for h in heights {
        let c = tree.add_child(list, "item");
        tree.set_size(c, 6, *h);
        items.push(c);
    }
    (tree, list, items)
}

#[test]
fn list_without_size_takes_children_size() {
    let (mut tree, list, items) = list_with(&[1, 2]);
    list_finish(&mut tree, list, (6, 3), 3);
    assert_eq!(tree.size(list), Some((6, 3)));
    assert_eq!(tree.size(items[0]), Some((6, 1)));
    assert_eq!(tree.size(items[1]), Some((6, 2)));
}

#[test]
fn list_with_height_hides_what_does_not_fit() {
    let (mut tree, list, items) = list_with(&[2, 2, 2, 1]);
    tree.set_size(list, 0, 3);
    list_finish(&mut tree, list, (6, 7), 7);
    assert_eq!(tree.size(list), Some((6, 3)));
    assert_eq!(tree.size(items[0]), Some((6, 2)));
    // The second item crosses the height and is cut to what is left.
    assert_eq!(tree.size(items[1]), Some((6, 1)));
    assert!(!tree.has_prop(items[1], "hidden"));
    assert!(tree.has_prop(items[2], "hidden"));
    assert!(tree.has_prop(items[3], "hidden"));
    assert_eq!(tree.size(items[2]), Some((6, 2)));
}

#[test]
fn list_with_width_widens_children() {
    let (mut tree, list, items) = list_with(&[1, 2]);
    tree.set_size(list, 10, 0);
    list_finish(&mut tree, list, (6, 3), 3);
    assert_eq!(tree.size(list), Some((10, 3)));
    assert_eq!(tree.size(items[0]), Some((10, 1)));
    assert_eq!(tree.size(items[1]), Some((10, 2)));
}

#[test]
fn list_with_both_fits_children_by_outer_height() {
    let (mut tree, list, items) = list_with(&[1, 2, 1]);
    tree.set_size(list, 9, 2);
    list_finish(&mut tree, list, (6, 4), 4);
    assert_eq!(tree.size(list), Some((9, 2)));
    assert_eq!(tree.size(items[0]), Some((9, 1)));
    assert_eq!(tree.size(items[1]), Some((9, 1)));
    assert!(tree.has_prop(items[2], "hidden"));
}

#[test]
fn checkbox_finish_sizes_and_shows_glyphs() {
    let mut tree = ElementTree::new("body");
    let cb = tree.add_child(0, "checkbox");
    let label = tree.add_child(cb, "text");
    tree.set_size(label, 11, 1);
    let v = checkbox_finish(&mut tree, cb, label, "X", "-", 1, 1, 1, None);
    assert_eq!(v, None);
    assert_eq!(tree.size(cb), Some((13, 1)));
    assert_eq!(tree.text(cb), &Some("-".to_string()));

    let mut tree = ElementTree::new("body");
    let cb = tree.add_child(0, "checkbox");
    let label = tree.add_child(cb, "text");
    tree.set_size(label, 11, 1);
    tree.set_size(cb, 20, 0);
    tree.add_prop(cb, "checked");
    let v = checkbox_finish(&mut tree, cb, label, "[X]", "[ ]", 3, 3, 1, None);
    assert_eq!(v, Some(CheckValue::Checked));
    assert_eq!(tree.size(cb), Some((20, 1)));
    assert_eq!(tree.text(cb), &Some("[X]".to_string()));

    let mut tree = ElementTree::new("body");
    let cb = tree.add_child(0, "checkbox");
    let label = tree.add_child(cb, "text");
    tree.set_size(label, 11, 2);
    tree.set_size(cb, 0, 5);
    tree.add_prop(cb, "checked");
    let v = checkbox_finish(&mut tree, cb, label, "#", "-", 1, 2, 1, Some(4));
    assert_eq!(v, Some(CheckValue::Count(4)));
    assert_eq!(tree.size(cb), Some((14, 5)));
}
