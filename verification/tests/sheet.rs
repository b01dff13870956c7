use conapp::color::{init_colors, Palette, RGBA};
use conapp::css::Selector;
use conapp::draw::BorderType;
use conapp::ui::computed::StyleColor;
use conapp::ui::element::ElementTree;
use conapp::ui::sheet::{make_style_sets, strip_comments, StyleSheet};
use conapp::ui::style::Style;

#[test]
fn strip_comments_easy() {
    let text = r"
        /* comment */ 
        selector { /* comment */
            key:value;
            key: /* comment */ value;
        }
        ";

    let no_comments = strip_comments(text);
    assert_eq!(
        no_comments.trim(),
        "selector { 
            key:value;
            key:  value;
        }"
    );
}

#[test]
fn strip_comments_without_comments_is_unchanged() {
    assert_eq!(strip_comments("a { b: c; }"), "a { b: c; }");
    assert_eq!(strip_comments(""), "");
}

#[test]
fn style_sets_split_blocks() {
    let sets = make_style_sets("text { fg: red; bg: blue } #id { fg: white; }").unwrap();
    assert_eq!(sets.len(), 2);
    assert_eq!(sets[0].0, "text");
    assert_eq!(
        sets[0].1,
        vec![
            ("fg".to_string(), "red".to_string()),
            ("bg".to_string(), "blue".to_string())
        ]
    );
    assert_eq!(sets[1].0, "#id");
    assert_eq!(sets[1].1, vec![("fg".to_string(), "white".to_string())]);
}

#[test]
fn load_string_builds_styles() {
    let mut palette = Palette::new();
    init_colors(&mut palette);
    let mut sheet = StyleSheet::new();
    let res = sheet.try_load_string(
        &palette,
        "text { fg: red; border: 2; } #id { bg: #00f; }".to_string(),
    );
    assert_eq!(res, Some(Ok(())));
    assert_eq!(sheet.len(), 2);
    assert_eq!(sheet.get(0).fg(), Some(RGBA(255, 0, 0, 255)));
    assert_eq!(sheet.get(0).border(), Some(BorderType::Double));
    assert_eq!(sheet.get(1).bg(), Some(RGBA(0, 0, 255, 255)));
    assert_eq!(sheet.get(1).fg(), None);
}

fn sheet_of(styles: Vec<Style>) -> StyleSheet {
    let mut sheet = StyleSheet::new();
    for s in styles {
        sheet.insert(s);
    }
    sheet
}

#[test]
fn computed_default() {
    let a = Style::new(Selector::new("*"));
    let b = Style::new(Selector::new("text"));
    let c = Style::new(Selector::new("#id"));

    assert_eq!(a.fg(), None);
    assert_eq!(b.fg(), None);
    assert_eq!(c.fg(), None);

    let sheet = sheet_of(vec![a, b, c]);
    let tree = ElementTree::new("text");

    assert_eq!(sheet.computed_color(&tree, 0, StyleColor::Fg), RGBA(255, 255, 255, 255));
    assert_eq!(sheet.computed_color(&tree, 0, StyleColor::Bg), RGBA(0, 0, 0, 255));
}

#[test]
fn computed_basic() {
    let mut a = Style::new(Selector::new("*"));
    a.set_fg(RGBA(0, 255, 0, 255));
    a.set_bg(RGBA(0, 255, 0, 255));
    let mut b = Style::new(Selector::new("text"));
    b.set_bg(RGBA(0, 0, 255, 255));
    let c = Style::new(Selector::new("#id"));

    let mut tree = ElementTree::new("text");
    tree.set_id(0, "id");

    assert!(a.matches(&tree, 0));
    assert!(b.matches(&tree, 0));
    assert!(c.matches(&tree, 0));

    assert_eq!(a.fg(), Some(RGBA::rgb(0, 255, 0)));
    assert_eq!(b.fg(), None);
    assert_eq!(c.fg(), None);
    assert_eq!(a.bg(), Some(RGBA::rgb(0, 255, 0)));
    assert_eq!(b.bg(), Some(RGBA::rgb(0, 0, 255)));
    assert_eq!(c.bg(), None);

    let sheet = sheet_of(vec![a, b, c]);
    assert_eq!(sheet.get_all_for_element(&tree, 0), vec![0, 1, 2]);
    // In score order: `#id`, then `text`, then `*`.
    assert_eq!(sheet.styles_by_score(&tree, 0), vec![2, 1, 0]);
    assert_eq!(sheet.computed_color(&tree, 0, StyleColor::Fg), RGBA::rgb(0, 255, 0));
    assert_eq!(sheet.computed_color(&tree, 0, StyleColor::Bg), RGBA::rgb(0, 0, 255));
}

#[test]
fn computed_local() {
    let a = Style::new(Selector::new("*"));
    let mut b = Style::new(Selector::new("text"));
    b.set_bg(RGBA(255, 0, 0, 255));
    b.set_fg(RGBA(255, 0, 0, 255));
    let c = Style::new(Selector::new("#id"));
    let mut local = Style::local();
    local.set_bg(RGBA(0, 255, 0, 255));

    let mut tree = ElementTree::new("text");
    tree.set_local_style(0, local);
    tree.set_id(0, "id");

    assert!(a.matches(&tree, 0));
    assert!(b.matches(&tree, 0));
    assert!(c.matches(&tree, 0));

    assert_eq!(a.fg(), None);
    assert_eq!(b.fg(), Some(RGBA::rgb(255, 0, 0)));
    assert_eq!(c.fg(), None);

    assert_eq!(a.bg(), None);
    assert_eq!(b.bg(), Some(RGBA::rgb(255, 0, 0)));
    assert_eq!(c.bg(), None);

    let sheet = sheet_of(vec![a, b, c]);
    assert_eq!(sheet.computed_color(&tree, 0, StyleColor::Fg), RGBA::rgb(255, 0, 0));
    assert_eq!(sheet.computed_color(&tree, 0, StyleColor::Bg), RGBA::rgb(0, 255, 0));
}

#[test]
fn computed_style_inherits_from_parent() {
    let mut root_style = Style::new(Selector::new("*"));
    root_style.set_fg(RGBA(1, 2, 3, 255));
    root_style.set_border(Some(BorderType::Single));
    let mut button = Style::new(Selector::new("button"));
    button.set_bg(RGBA(9, 9, 9, 255));
    let sheet = sheet_of(vec![root_style, button]);

    let mut tree = ElementTree::new("body");
    let b = tree.add_child(0, "button");
    // `*` applies to the root only; the button inherits its foreground.
    assert_eq!(sheet.get_all_for_element(&tree, b), vec![1]);
    assert_eq!(sheet.computed_color(&tree, b, StyleColor::Fg), RGBA(1, 2, 3, 255));
    assert_eq!(sheet.computed_color(&tree, b, StyleColor::Bg), RGBA(9, 9, 9, 255));
    assert_eq!(sheet.computed_color(&tree, 0, StyleColor::Bg), RGBA(0, 0, 0, 255));
    assert_eq!(sheet.computed_color(&tree, b, StyleColor::AccentFg), RGBA(255, 255, 255, 255));
    assert_eq!(sheet.computed_border(&tree, b), Some(BorderType::Single));
}

#[test]
fn computed_style_prefers_higher_score_then_first() {
    let mut by_tag = Style::new(Selector::new("button"));
    by_tag.set_fg(RGBA(1, 0, 0, 255));
    let mut by_id = Style::new(Selector::new("#ok"));
    by_id.set_fg(RGBA(2, 0, 0, 255));
    let mut by_tag_again = Style::new(Selector::new("button"));
    by_tag_again.set_fg(RGBA(3, 0, 0, 255));
    let sheet = sheet_of(vec![by_tag, by_tag_again, by_id]);

    let mut tree = ElementTree::new("body");
    let b = tree.add_child(0, "button");
    assert_eq!(sheet.computed_color(&tree, b, StyleColor::Fg), RGBA(1, 0, 0, 255));
    tree.set_id(b, "ok");
    assert_eq!(sheet.computed_color(&tree, b, StyleColor::Fg), RGBA(2, 0, 0, 255));
}

#[test]
fn finish_orders_by_score_stably() {
    let mut id_style = Style::new(Selector::new("#a"));
    id_style.set_fg(RGBA(1, 0, 0, 255));
    let mut tag1 = Style::new(Selector::new("button"));
    tag1.set_fg(RGBA(2, 0, 0, 255));
    let mut star = Style::new(Selector::new("*"));
    star.set_fg(RGBA(3, 0, 0, 255));
    let mut tag2 = Style::new(Selector::new("text"));
    tag2.set_fg(RGBA(4, 0, 0, 255));
    let mut sheet = sheet_of(vec![id_style, tag1, star, tag2]);
    sheet.finish();
    let order: Vec<u8> = (0..sheet.len()).map(|i| sheet.get(i).fg().unwrap().0).collect();
    assert_eq!(order, vec![3, 2, 4, 1]);
    let scores: Vec<u32> = (0..sheet.len()).map(|i| sheet.get(i).score()).collect();
    assert_eq!(scores, vec![0, 100, 100, 1000]);
}

#[test]
fn finish_keeps_computed_styles() {
    let make = || {
        let mut a = Style::new(Selector::new("#ok"));
        a.set_fg(RGBA(1, 0, 0, 255));
        let mut b = Style::new(Selector::new("button"));
        b.set_fg(RGBA(2, 0, 0, 255));
        b.set_border(Some(BorderType::Double));
        let mut c = Style::new(Selector::new("button"));
        c.set_fg(RGBA(3, 0, 0, 255));
        c.set_bg(RGBA(4, 0, 0, 255));
        let mut d = Style::new(Selector::new("*"));
        d.set_bg(RGBA(5, 0, 0, 255));
        sheet_of(vec![a, b, c, d])
    };
    let plain = make();
    let mut sorted = make();
    sorted.finish();

    let mut tree = ElementTree::new("body");
    let b1 = tree.add_child(0, "button");
    let b2 = tree.add_child(0, "button");
    tree.set_id(b2, "ok");
    for el in [0, b1, b2] {
        for f in [StyleColor::Fg, StyleColor::Bg, StyleColor::BorderFg, StyleColor::BorderBg, StyleColor::AccentFg] {
            assert_eq!(plain.computed_color(&tree, el, f), sorted.computed_color(&tree, el, f));
        }
        assert_eq!(plain.computed_border(&tree, el), sorted.computed_border(&tree, el));
    }
    assert_eq!(sorted.computed_color(&tree, b1, StyleColor::Fg), RGBA(2, 0, 0, 255));
    assert_eq!(sorted.computed_color(&tree, b2, StyleColor::Fg), RGBA(1, 0, 0, 255));
    assert_eq!(sorted.computed_color(&tree, b1, StyleColor::Bg), RGBA(4, 0, 0, 255));
}

#[test]
fn own_style_applies_to_its_element_only() {
    let mut base = Style::new(Selector::new("text"));
    base.set_fg(RGBA(1, 1, 1, 255));
    let sheet = sheet_of(vec![base]);
    let mut own = Style::local();
    own.set_fg(RGBA(7, 7, 7, 255));

    let mut tree = ElementTree::new("body");
    let a = tree.add_child(0, "text");
    let b = tree.add_child(0, "text");
    tree.set_local_style(a, own);
    assert_eq!(sheet.computed_color(&tree, a, StyleColor::Fg), RGBA(7, 7, 7, 255));
    assert_eq!(sheet.computed_color(&tree, b, StyleColor::Fg), RGBA(1, 1, 1, 255));
    assert_eq!(sheet.computed_color(&tree, 0, StyleColor::Fg), RGBA(255, 255, 255, 255));
}
