use conapp::color::{
    get_color, get_color_opt, init_colors, register_color, static_color, try_get_color, ColorParseErr,
    Palette, RGBA,
};

#[test]
fn rgba_basics() {
    let c = RGBA::rgba(1, 2, 3, 4);
    assert_eq!((c.r(), c.g(), c.b(), c.a()), (1, 2, 3, 4));
    assert_eq!(RGBA::rgb(1, 2, 3), RGBA(1, 2, 3, 255));
    assert_eq!(RGBA::new(), RGBA(0, 0, 0, 0));
    assert!(RGBA::new().is_empty());
    assert!(!RGBA(0, 0, 0, 1).is_empty());
    assert_eq!(RGBA::default(), RGBA(0, 0, 0, 0));
    let t: (u8, u8, u8, u8) = c.into();
    assert_eq!(t, (1, 2, 3, 4));
    assert_eq!(RGBA::from((1, 2, 3, 4)), c);
    assert_eq!(RGBA::from((1, 2, 3)), RGBA(1, 2, 3, 255));
}

#[test]
fn rgba_arithmetic() {
    let a = RGBA(200, 100, 0, 255);
    let b = RGBA(100, 200, 50, 10);
    assert_eq!(a + b, RGBA(255, 255, 50, 255));
    assert_eq!(a - b, RGBA(100, 0, 0, 245));
    assert_eq!(RGBA::multiply(&a, &b), RGBA(78, 78, 0, 255));
    assert_eq!(RGBA::multiply(&a, &b), RGBA::multiply(&b, &a));
    assert_eq!(RGBA::mix(&a, &b), RGBA(150, 150, 25, 132));
    assert_eq!(RGBA::mix(&a, &b), RGBA::mix(&b, &a));
    assert_eq!(RGBA::distance(&a, &b), 100 * 100 + 100 * 100 + 50 * 50);
    assert_eq!(RGBA::distance(&a, &b), RGBA::distance(&b, &a));
    assert_eq!(RGBA::distance(&a, &RGBA(200, 100, 0, 3)), 0);
    assert_eq!(RGBA::invert(&a), RGBA(55, 155, 255, 255));
    assert_eq!(RGBA::invert(&RGBA::invert(&b)), b);
    assert_eq!(RGBA::binary_inverse(&RGBA(127, 128, 0, 9)), RGBA(255, 0, 255, 9));
}

#[test]
fn alpha_mix_cases() {
    let base = RGBA(10, 20, 30, 255);
    let over = RGBA(200, 100, 0, 128);
    assert_eq!(RGBA::alpha_mix(&RGBA(1, 1, 1, 0), &over), over);
    assert_eq!(RGBA::alpha_mix(&base, &RGBA(9, 9, 9, 0)), base);
    assert_eq!(RGBA::alpha_mix(&base, &RGBA(9, 9, 9, 255)), RGBA(9, 9, 9, 255));
    assert_eq!(RGBA::alpha_mix(&base, &over), RGBA(105, 60, 15, 255));
}

#[test]
fn lerp_quarters_steps() {
    let black = RGBA(0, 0, 0, 255);
    let white = RGBA(255, 255, 255, 255);
    assert_eq!(RGBA::lerp_quarters(&black, &white, 0), black);
    assert_eq!(RGBA::lerp_quarters(&black, &white, 2), RGBA(127, 127, 127, 255));
    assert_eq!(RGBA::lerp_quarters(&black, &white, 4), white);
}

#[test]
fn palette_read_after_write() {
    let mut p = Palette::new();
    assert_eq!(static_color(&p, "teal"), None);
    register_color(&mut p, "teal", RGBA(0, 128, 128, 255));
    assert_eq!(static_color(&p, "teal"), Some(RGBA(0, 128, 128, 255)));
    register_color(&mut p, "teal", RGBA(1, 2, 3, 255));
    assert_eq!(static_color(&p, "teal"), Some(RGBA(1, 2, 3, 255)));
    assert_eq!(get_color(&p, "teal"), Ok(RGBA(1, 2, 3, 255)));
    assert_eq!(get_color(&p, "  TEAL "), Ok(RGBA(1, 2, 3, 255)));
}

#[test]
fn named_colors_and_shades() {
    let mut p = Palette::new();
    init_colors(&mut p);
    assert_eq!(get_color(&p, "white"), Ok(RGBA(255, 255, 255, 255)));
    assert_eq!(get_color(&p, "none"), Ok(RGBA(0, 0, 0, 0)));
    assert_eq!(get_color(&p, "null"), Ok(RGBA(0, 0, 0, 0)));
    assert_eq!(get_color(&p, ""), Ok(RGBA(0, 0, 0, 0)));
    assert_eq!(get_color(&p, "#abc"), Ok(RGBA(0xaa, 0xbb, 0xcc, 255)));
    assert_eq!(get_color(&p, "rgb(1,2,3)"), Ok(RGBA(1, 2, 3, 255)));
    assert_eq!(get_color(&p, "dark_white"), Ok(RGBA(191, 191, 191, 255)));
    assert_eq!(get_color(&p, "light_black"), Ok(RGBA(63, 63, 63, 255)));
    assert_eq!(get_color(&p, "pale_white"), Err(ColorParseErr::InvalidModifier));
    assert_eq!(get_color(&p, "dark_nosuchcolor"), Err(ColorParseErr::UnknownColor));
    assert_eq!(get_color(&p, "nosuchcolor"), Err(ColorParseErr::UnknownColor));
    assert_eq!(get_color(&p, "ff0000"), Ok(RGBA(255, 0, 0, 255)));
    assert_eq!(get_color_opt(&p, "nosuchcolor"), None);
    assert_eq!(get_color_opt(&p, "white"), Some(RGBA(255, 255, 255, 255)));
    assert_eq!(try_get_color(&p, "white"), Some(Ok(RGBA(255, 255, 255, 255))));
}

#[test]
fn lookup_ignores_case_and_blanks() {
    let mut p = Palette::new();
    init_colors(&mut p);
    for name in ["Red", " red", "RED\t", "Dark_Red", "  #F00 ", "RGB(1,2,3)"] {
        let folded = name.trim().to_lowercase();
        assert_eq!(get_color(&p, name), get_color(&p, &folded), "name {:?}", name);
    }
    assert_eq!(get_color(&p, "   "), Ok(RGBA(0, 0, 0, 0)));
    assert_eq!(get_color(&p, "WHITE"), Ok(RGBA(255, 255, 255, 255)));
}

#[test]
fn named_colors_twice_change_nothing() {
    let mut once = Palette::new();
    register_color(&mut once, "mine", RGBA(1, 2, 3, 255));
    register_color(&mut once, "red", RGBA(9, 9, 9, 255));
    conapp::color::named::add_named_colors_to_palette(&mut once);
    assert_eq!(static_color(&once, "mine"), Some(RGBA(1, 2, 3, 255)));
    assert_eq!(static_color(&once, "red"), Some(RGBA(255, 0, 0, 255)));
    assert_eq!(static_color(&once, "none"), Some(RGBA(0, 0, 0, 0)));
    let mut twice = Palette::new();
    register_color(&mut twice, "mine", RGBA(1, 2, 3, 255));
    register_color(&mut twice, "red", RGBA(9, 9, 9, 255));
    conapp::color::named::add_named_colors_to_palette(&mut twice);
    conapp::color::named::add_named_colors_to_palette(&mut twice);
    for name in ["mine", "red", "none", "snow", "dark_red", "white"] {
        assert_eq!(static_color(&once, name), static_color(&twice, name));
    }
}
