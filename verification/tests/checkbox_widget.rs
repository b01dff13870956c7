use conapp::ui::checkbox::{
    checkbox_activate, checkbox_finish, checkbox_text, count_key, count_state, layout_checkbox,
    CheckValue, CountKey,
};
use conapp::ui::element::ElementTree;

/// A checkbox built as the checkbox widget builds one: a label child with
/// its text and the size its text takes, finished with the glyphs, then
/// placed at the top left and laid out.
struct Check {
    tree: ElementTree,
    el: usize,
    label: usize,
    on: &'static str,
    off: &'static str,
    count: Option<(i32, &'static str)>,
    value: Option<CheckValue>,
}

impl Check {
    fn new(
        text: &str,
        text_size: (u32, u32),
        size: Option<(u32, u32)>,
        glyphs: (&'static str, &'static str),
        count: Option<(i32, &'static str)>,
    ) -> Check {
        let mut tree = ElementTree::new("body");
        let el = tree.add_child(0, "checkbox");
        tree.set_id(el, "HELLO");
        let label = tree.add_child(el, "text");
        tree.set_text(label, text);
        tree.set_size(label, text_size.0, text_size.1);
        if let Some((w, h)) = size {
            tree.set_size(el, w, h);
        }
        let (off, on) = glyphs;
        let value = checkbox_finish(
            &mut tree,
            el,
            label,
            on,
            off,
            on.chars().count() as u32,
            off.chars().count() as u32,
            1,
            count.map(|c| c.0),
        );
        tree.set_pos(el, 0, 0);
        layout_checkbox(&mut tree, el, 1);
        Check { tree, el, label, on, off, count, value }
    }

    fn text(&self) -> String {
        self.tree.text(self.el).clone().unwrap()
    }

    fn show(&mut self) {
        let checked = self.tree.has_prop(self.el, "checked");
        let count = match (self.count, self.value) {
            (Some((max, _)), Some(CheckValue::Count(c))) => Some((max, c)),
            (Some((max, _)), _) => Some((max, 0)),
            _ => None,
        };
        let glyph = self.count.map(|c| c.1).unwrap_or("");
        let (text, _) = checkbox_text(checked, count, self.on, self.off, glyph);
        self.tree.set_text(self.el, &text);
    }

    /// Space or return.
    fn activate(&mut self) -> Option<CheckValue> {
        let checked = self.tree.has_prop(self.el, "checked");
        let (now, value) = checkbox_activate(checked, self.count.map(|c| c.0));
        if now {
            self.tree.add_prop(self.el, "checked");
        } else {
            self.tree.remove_prop(self.el, "checked");
        }
        self.value = value;
        self.show();
        self.value
    }

    /// A digit key.
    fn digit(&mut self, d: u8) -> Option<CheckValue> {
        let (max, _) = self.count.unwrap();
        let current = match self.value {
            Some(CheckValue::Count(c)) => c,
            _ => 0,
        };
        let next = count_key(max, current, CountKey::Digit(d));
        let (checked, value) = count_state(next);
        if checked {
            self.tree.add_prop(self.el, "checked");
        } else {
            self.tree.remove_prop(self.el, "checked");
        }
        self.value = value;
        self.show();
        self.value
    }
}

#[test]
fn simple_check() {
    let c = Check::new("Hello World", (11, 1), None, ("-", "X"), None);
    assert_eq!(c.value, None); // Not checked
    assert!(c.tree.pos(c.el).is_some());
    assert_eq!(c.tree.size(c.el).unwrap(), (13, 1));
    assert!(c.tree.contains(c.el, (0, 0)));
    assert!(!c.tree.contains(c.el, (9, 8)));

    assert_eq!(c.tree.first_child(c.el), Some(c.label));
    assert_eq!(c.tree.text(c.label).as_ref().unwrap(), "Hello World");
    assert_eq!(c.tree.size(c.label).unwrap(), (11, 1));
}

#[test]
fn sized_check() {
    let c = Check::new("Hello World", (11, 1), Some((20, 2)), ("-", "X"), None);
    assert_eq!(c.text(), "-"); // Not checked
    assert!(c.tree.pos(c.el).is_some());
    assert_eq!(c.tree.size(c.el).unwrap(), (20, 2));
    assert!(c.tree.contains(c.el, (0, 0)));
    assert!(!c.tree.contains(c.el, (9, 8)));

    assert_eq!(c.tree.text(c.label).as_ref().unwrap(), "Hello World");
    assert_eq!(c.tree.size(c.label).unwrap(), (18, 2));
}

#[test]
fn check_num() {
    let mut c = Check::new("Number Check.", (13, 1), Some((15, 0)), ("-", "X"), Some((10, "#")));
    assert_eq!(c.text(), "-"); // Not checked
    assert_eq!(c.value, None);

    assert_eq!(c.activate(), Some(CheckValue::Count(10)));
    assert_eq!(c.text(), "X");
    assert_eq!(c.activate(), None);
    assert_eq!(c.text(), "-");
    assert_eq!(c.digit(3), Some(CheckValue::Count(3)));
    assert_eq!(c.text(), "3");
    assert_eq!(c.digit(4), Some(CheckValue::Count(4)));
    assert_eq!(c.text(), "4");
    assert_eq!(c.activate(), None);
    assert_eq!(c.text(), "-");
}

#[test]
fn check_num2() {
    let mut c = Check::new("Number Check.", (13, 1), Some((15, 0)), ("--", "XX"), Some((20, "##")));
    assert_eq!(c.text(), "--"); // Not checked
    assert_eq!(c.value, None);

    assert_eq!(c.activate(), Some(CheckValue::Count(20)));
    assert_eq!(c.text(), "XX");
    assert_eq!(c.activate(), None);
    assert_eq!(c.text(), "--");
    assert_eq!(c.digit(3), Some(CheckValue::Count(3)));
    assert_eq!(c.text(), " 3");
    assert_eq!(c.digit(1), Some(CheckValue::Count(1)));
    assert_eq!(c.text(), " 1");
    assert_eq!(c.digit(2), Some(CheckValue::Count(12)));
    assert_eq!(c.text(), "12");
    assert_eq!(c.activate(), None);
    assert_eq!(c.text(), "--");
}

#[test]
fn check_num3() {
    let mut c = Check::new("Number Check.", (13, 1), Some((15, 0)), ("-", "X"), Some((20, "#")));
    assert_eq!(c.text(), "-"); // Not checked
    assert_eq!(c.value, None);

    assert_eq!(c.activate(), Some(CheckValue::Count(20)));
    assert_eq!(c.text(), "X");
    assert_eq!(c.activate(), None);
    assert_eq!(c.text(), "-");
    assert_eq!(c.digit(3), Some(CheckValue::Count(3)));
    assert_eq!(c.text(), "3");
    assert_eq!(c.digit(1), Some(CheckValue::Count(1)));
    assert_eq!(c.text(), "1");
    assert_eq!(c.digit(2), Some(CheckValue::Count(12)));
    assert_eq!(c.text(), "#");
    assert_eq!(c.activate(), None);
    assert_eq!(c.text(), "-");
}
