use conapp::color::{parse_color, parse_color_hex, parse_color_rgb, RGBA};

const WHITE: RGBA = RGBA(255, 255, 255, 255);
const RED: RGBA = RGBA(255, 0, 0, 255);
const GREEN: RGBA = RGBA(0, 255, 0, 255);
const BLUE: RGBA = RGBA(0, 0, 255, 255);

#[test]
fn parse_hex() {
    assert_eq!(parse_color_hex("#fff").unwrap(), WHITE);
    assert_eq!(parse_color_hex("#ffff").unwrap(), WHITE);
    assert_eq!(parse_color_hex("#ffffff").unwrap(), WHITE);
    assert_eq!(parse_color_hex("#ffffffff").unwrap(), WHITE);

    assert_eq!(parse_color_hex("#f00").unwrap(), RED);
    assert_eq!(parse_color_hex("#0f0f").unwrap(), GREEN);
    assert_eq!(parse_color_hex("#0000ff").unwrap(), BLUE);
    assert_eq!(
        parse_color_hex("#80808080").unwrap(),
        RGBA::rgba(128, 128, 128, 128)
    );

    assert_eq!(parse_color_hex("F00").unwrap(), RED);
    assert_eq!(parse_color_hex("0F0F").unwrap(), GREEN);
    assert_eq!(parse_color_hex("0000FF").unwrap(), BLUE);
    assert_eq!(
        parse_color_hex("80808080").unwrap(),
        RGBA::rgba(128, 128, 128, 128)
    );

    assert!(parse_color_hex("white").is_err());
    assert!(parse_color_hex("12,34,56").is_err());
}

#[test]
fn parse_rgb() {
    assert_eq!(parse_color_rgb("0,0,0").unwrap(), RGBA::rgba(0, 0, 0, 255));

    assert_eq!(
        parse_color_rgb("rgb(10,20,30)").unwrap(),
        RGBA::rgba(10, 20, 30, 255)
    );

    assert_eq!(
        parse_color_rgb("(255,150,200,25)").unwrap(),
        RGBA::rgba(255, 150, 200, 25)
    );

    assert_eq!(
        parse_color_rgb("rgba(10,20,30)").unwrap(),
        RGBA::rgba(10, 20, 30, 255)
    );

    assert!(parse_color_rgb("FFF").is_err());
    assert!(parse_color_rgb("white").is_err());
}

#[test]
fn parse_test() {
    assert_eq!(parse_color("0,0,0").unwrap(), RGBA::rgba(0, 0, 0, 255));

    assert_eq!(
        parse_color("rgb(10,20,30)").unwrap(),
        RGBA::rgba(10, 20, 30, 255)
    );

    assert_eq!(
        parse_color("(255,150,200,25)").unwrap(),
        RGBA::rgba(255, 150, 200, 25)
    );

    assert_eq!(
        parse_color("rgba(10,20,30)").unwrap(),
        RGBA::rgba(10, 20, 30, 255)
    );

    assert_eq!(parse_color("#f00").unwrap(), RED);
    assert_eq!(parse_color("#0f0f").unwrap(), GREEN);
    assert_eq!(parse_color("#0000ff").unwrap(), BLUE);
    assert_eq!(
        parse_color("#80808080").unwrap(),
        RGBA::rgba(128, 128, 128, 128)
    );

    assert_eq!(parse_color("F00").unwrap(), RED);
    assert_eq!(parse_color("0F0F").unwrap(), GREEN);
    assert_eq!(parse_color("0000FF").unwrap(), BLUE);
    assert_eq!(parse_color("0000FF # comment").unwrap(), BLUE);

    assert_eq!(
        parse_color("80808080").unwrap(),
        RGBA::rgba(128, 128, 128, 128)
    );

    assert!(parse_color("white").is_err());
    assert!(parse_color("WHITE").is_err());
}
