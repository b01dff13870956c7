use conapp::color::RGBA;
use conapp::img::{Image, Images};

fn png_bytes(w: u32, h: u32, raw: Vec<u8>) -> Vec<u8> {
    let img = image::RgbaImage::from_raw(w, h, raw).unwrap();
    let mut out = std::io::Cursor::new(Vec::new());
    image::DynamicImage::ImageRgba8(img)
        .write_to(&mut out, image::ImageOutputFormat::Png)
        .unwrap();
    out.into_inner()
}

#[test]
fn decode_png_pixels() {
    let bytes = png_bytes(2, 1, vec![255, 0, 0, 255, 0, 0, 255, 128]);
    let img = Image::try_new(&bytes).unwrap();
    assert_eq!(img.size(), (2, 1));
    assert_eq!(img.pixel(0, 0), Some(RGBA(255, 0, 0, 255)));
    assert_eq!(img.pixel(1, 0), Some(RGBA(0, 0, 255, 128)));
    assert_eq!(img.pixels().len(), 2);
}

#[test]
fn undecodable_bytes() {
    assert!(Image::try_new(&[1, 2, 3, 4]).is_none());
}

#[test]
fn empty_and_put_pixel() {
    let mut img = Image::empty(3, 2);
    assert_eq!(img.width(), 3);
    assert_eq!(img.height(), 2);
    assert_eq!(img.pixel(2, 1), Some(RGBA(0, 0, 0, 0)));
    img.put_pixel(2, 1, RGBA(1, 2, 3, 4));
    assert_eq!(img.pixel(2, 1), Some(RGBA(1, 2, 3, 4)));
    assert_eq!(img.pixels()[5], RGBA(1, 2, 3, 4));
    assert_eq!(img.pixel(1, 1), Some(RGBA(0, 0, 0, 0)));
}

#[test]
fn image_store() {
    let mut images = Images::new();
    assert!(images.get("a.png").is_none());
    images.insert("a.png", Image::empty(1, 1));
    images.insert("b.png", Image::empty(2, 2));
    assert_eq!(images.get("a.png").unwrap().size(), (1, 1));
    images.insert("a.png", Image::empty(4, 4));
    assert_eq!(images.get("a.png").unwrap().size(), (4, 4));
    assert_eq!(images.get("b.png").unwrap().size(), (2, 2));
}
