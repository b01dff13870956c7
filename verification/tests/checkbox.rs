use conapp::ui::checkbox::{checkbox_activate, count_state, CheckValue};
use conapp::ui::checkbox::{checkbox_text, count_key, get_count_text, replace_chars, CountKey};

#[test]
fn count_text_fills_the_field() {
    assert_eq!(get_count_text("[##]", 5), "[ 5]");
    assert_eq!(get_count_text("[##]", 42), "[42]");
    assert_eq!(get_count_text("[##]", 123), "[##]");
    assert_eq!(get_count_text("none", 7), "none");
    assert_eq!(get_count_text("#", 0), "0");
    // every occurrence of the first run is replaced
    assert_eq!(get_count_text("## ##", 3), " 3  3");
    // the field is the first run; later text is searched for that run
    assert_eq!(get_count_text("#-###", 4), "4-444");
    assert_eq!(get_count_text("##-###", 4), " 4- 4#");
}

#[test]
fn count_text_keeps_the_width() {
    for v in [0u32, 9, 10, 99, 100, 12345] {
        let t = get_count_text("(###)", v);
        assert_eq!(t.chars().count(), 5);
    }
}

#[test]
fn replace_is_left_to_right() {
    let v: Vec<char> = "aaaa".chars().collect();
    let p: Vec<char> = "aa".chars().collect();
    let r: Vec<char> = "b".chars().collect();
    assert_eq!(replace_chars(&v, &p, &r), vec!['b', 'b']);
    let v: Vec<char> = "aaa".chars().collect();
    assert_eq!(replace_chars(&v, &p, &r), vec!['b', 'a']);
}

#[test]
fn count_keys() {
    assert_eq!(count_key(15, 1, CountKey::Digit(2)), 12);
    assert_eq!(count_key(15, 1, CountKey::Digit(7)), 7);
    assert_eq!(count_key(5, 3, CountKey::Digit(9)), 0);
    assert_eq!(count_key(15, 12, CountKey::Delete), 1);
    assert_eq!(count_key(15, 1, CountKey::Delete), 0);
    assert_eq!(count_key(15, -13, CountKey::Delete), -1);
    assert_eq!(count_key(15, 4, CountKey::Other), 4);
}

#[test]
fn count_stays_within_range() {
    for max in 0..30 {
        for cur in 0..=max {
            for d in 0u8..10 {
                let r = count_key(max, cur, CountKey::Digit(d));
                assert!(0 <= r && r <= max);
            }
            let r = count_key(max, cur, CountKey::Delete);
            assert!(0 <= r && r <= max);
        }
    }
}

#[test]
fn checkbox_texts() {
    assert_eq!(checkbox_text(false, None, "X", "-", ""), ("-".to_string(), false));
    assert_eq!(checkbox_text(true, None, "X", "-", ""), ("X".to_string(), true));
    assert_eq!(checkbox_text(true, Some((10, 0)), "X", "-", "#"), ("-".to_string(), false));
    assert_eq!(checkbox_text(true, Some((10, 10)), "X", "-", "##"), ("X".to_string(), true));
    assert_eq!(checkbox_text(true, Some((10, 4)), "X", "-", "##"), (" 4".to_string(), true));
}

#[test]
fn activation_and_count_state() {
    assert_eq!(checkbox_activate(false, None), (true, Some(CheckValue::Checked)));
    assert_eq!(checkbox_activate(false, Some(12)), (true, Some(CheckValue::Count(12))));
    assert_eq!(checkbox_activate(true, Some(12)), (false, None));
    assert_eq!(count_state(0), (false, None));
    assert_eq!(count_state(4), (true, Some(CheckValue::Count(4))));
}
