use conapp::load_screen::{loading_alpha, loading_step, LoadingStep};
use conapp::draw::to_subcell_glyph;
use conapp::font::{default_from_glyph, default_to_glyph, parse_char_size, process_image, try_parse_char_size};
use conapp::panel::_get_pot_value;
use conapp::color::RGBA;
use conapp::ui::{Align, Body, Button, Checkbox, Dialog, Div, Frame, List, ListItem, Select, SelectItem, Span};
use conapp::value::{DataConvertError, Key};

#[test]
fn tag_names() {
    assert_eq!(Body {}.as_str(), "body");
    assert_eq!(Button {}.as_str(), "button");
    assert_eq!(Checkbox {}.as_str(), "checkbox");
    assert_eq!(Dialog {}.as_str(), "dialog");
    assert_eq!(Div {}.as_str(), "div");
    assert_eq!(Frame {}.as_str(), "frame");
    assert_eq!(List {}.as_str(), "list");
    assert_eq!(ListItem {}.as_str(), "item");
    assert_eq!(Select {}.as_str(), "select");
    assert_eq!(SelectItem {}.as_str(), "item");
    assert_eq!(Span {}.as_str(), "span");
}

#[test]
fn align_names() {
    assert_eq!(Align::default(), Align::Min);
    assert_eq!(Align::LEFT, Align::Min);
    assert_eq!(Align::TOP, Align::Min);
    assert_eq!(Align::CENTER, Align::Center);
    assert_eq!(Align::MIDDLE, Align::Center);
    assert_eq!(Align::RIGHT, Align::Max);
    assert_eq!(Align::BOTTOM, Align::Max);
}

#[test]
fn subcell_glyphs() {
    let expected = [0, 2, 7, 5, 4, 6, -3, -1, 0, 0];
    for (flag, g) in expected.iter().enumerate() {
        assert_eq!(to_subcell_glyph(flag as u8), *g);
    }
    assert_eq!(to_subcell_glyph(255), 0);
}

#[test]
fn font_char_sizes() {
    assert_eq!(parse_char_size("terminal_8x8.png"), (8, 8));
    assert_eq!(parse_char_size("fonts/my_font_10x12.png"), (10, 12));
    assert_eq!(parse_char_size("_.png"), (0, 0));
}

#[test]
fn glyph_numbers() {
    assert_eq!(default_to_glyph('A'), 65);
    assert_eq!(default_from_glyph(65), 'A');
    assert_eq!(default_from_glyph(default_to_glyph('é')), 'é');
}

#[test]
fn font_image_preparation() {
    let mut px = vec![RGBA(0, 0, 0, 255), RGBA(128, 128, 128, 255), RGBA(10, 20, 30, 255)];
    process_image(&mut px);
    assert_eq!(
        px,
        vec![RGBA(0, 0, 0, 0), RGBA(255, 255, 255, 128), RGBA(10, 20, 30, 255)]
    );

    let mut px = vec![RGBA(255, 0, 255, 255), RGBA(255, 0, 255, 255), RGBA(1, 1, 1, 255)];
    process_image(&mut px);
    assert_eq!(px, vec![RGBA(0, 0, 0, 0), RGBA(0, 0, 0, 0), RGBA(1, 1, 1, 255)]);

    let mut px = vec![RGBA(255, 0, 255, 10), RGBA(255, 0, 255, 255)];
    process_image(&mut px);
    assert_eq!(px, vec![RGBA(255, 0, 255, 10), RGBA(255, 0, 255, 255)]);
}

#[test]
fn power_of_two_sizes() {
    assert_eq!(_get_pot_value(0), 1);
    assert_eq!(_get_pot_value(1), 1);
    assert_eq!(_get_pot_value(5), 8);
    assert_eq!(_get_pot_value(64), 64);
    assert_eq!(_get_pot_value(65), 128);
}

#[test]
fn key_conversions() {
    assert_eq!(Key::from(7usize).to_usize(), Ok(7));
    assert_eq!(Key::from(-3i32).to_u32(), Err(DataConvertError::Negative));
    assert_eq!(Key::from(-3i32).to_i32(), Ok(-3));
    assert_eq!(Key::from(5u32).to_u64(), Ok(5));
    assert_eq!(Key::from(u64::MAX).to_u64(), Ok(u64::MAX));
    assert_eq!(Key::from(u64::MAX).to_u32(), Err(DataConvertError::WrongType));
    assert_eq!(Key::text("123").to_u64(), Ok(123));
    assert_eq!(Key::text("+12").to_u32(), Ok(12));
    assert_eq!(Key::text("-12").to_i32(), Ok(-12));
    assert_eq!(Key::text("12a").to_u64(), Err(DataConvertError::WrongType));
    assert_eq!(Key::from("hi".to_string()), Key::Text("hi".to_string()));
    // a number written out as text reads back as that number
    for n in [0u64, 9, 10, 4294967295, 4294967296, u64::MAX] {
        assert_eq!(Key::text(&n.to_string()).to_u64(), Ok(n));
    }
}

#[test]
fn font_char_sizes_checked() {
    assert_eq!(try_parse_char_size("terminal_8x8.png"), Some((8, 8)));
    assert_eq!(try_parse_char_size("terminal.png"), None);
    assert_eq!(try_parse_char_size("terminal_8.png"), None);
    assert_eq!(try_parse_char_size("terminal_axb.png"), None);
    assert_eq!(try_parse_char_size("a.b_8x8"), None);
    assert_eq!(try_parse_char_size("_.png"), Some((0, 0)));
}

#[test]
fn loading_screen_steps() {
    assert_eq!(loading_step(true, true), LoadingStep::Continue);
    assert_eq!(loading_step(false, true), LoadingStep::Replace);
    assert_eq!(loading_step(false, false), LoadingStep::Pop);
    assert_eq!(loading_alpha(0, 16), 255);
    assert_eq!(loading_alpha(200, 16), 184);
    assert_eq!(loading_alpha(10, 16), 0);
}
