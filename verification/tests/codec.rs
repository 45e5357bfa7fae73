use morpho_engine::codec::{convert_bytes, thumbnail_bytes};
use morpho_engine::error::Error;
use morpho_engine::format::Format;

fn png_bytes(img: image::RgbaImage) -> Vec<u8> {
    let mut out = std::io::Cursor::new(Vec::new());
    image::DynamicImage::ImageRgba8(img).write_to(&mut out, image::ImageFormat::Png).unwrap();
    out.into_inner()
}

#[test]
fn jpeg_output_is_composited_onto_white() {
    let mut img = image::RgbaImage::new(8, 8);
    for p in img.pixels_mut() {
        *p = image::Rgba([0, 0, 0, 0]);
    }
    let jpg = convert_bytes(&png_bytes(img), "a/clear.png", Format::Jpg, Some(90)).unwrap();
    let back = image::load_from_memory_with_format(&jpg, image::ImageFormat::Jpeg).unwrap().to_rgb8();
    assert_eq!(back.dimensions(), (8, 8));
    assert!(back.pixels().all(|p| p.0.iter().all(|&c| c > 240)));
}

#[test]
fn other_codecs_keep_the_pixels() {
    let mut img = image::RgbaImage::new(3, 2);
    img.put_pixel(1, 1, image::Rgba([10, 20, 30, 255]));
    let bmp = convert_bytes(&png_bytes(img), "x.PNG", Format::Bmp, None).unwrap();
    let back = image::load_from_memory_with_format(&bmp, image::ImageFormat::Bmp).unwrap().to_rgba8();
    assert_eq!(back.dimensions(), (3, 2));
    assert_eq!(back.get_pixel(1, 1).0, [10, 20, 30, 255]);
}

#[test]
fn conversion_failures() {
    match convert_bytes(&vec![1, 2, 3], "a.png", Format::Webp, None) {
        Err(Error::Other(m)) => assert_eq!(m, "native image pipeline cannot encode webp"),
        other => panic!("unexpected {other:?}"),
    }
    assert!(matches!(convert_bytes(&vec![1, 2, 3], "a.png", Format::Bmp, None), Err(Error::Image(_))));
    assert!(matches!(convert_bytes(&vec![1, 2, 3], "noext", Format::Png, None), Err(Error::Image(_))));
}

#[test]
fn thumbnails_fit_the_box() {
    let big = png_bytes(image::RgbaImage::new(400, 200));
    let t = thumbnail_bytes(&big, "big.png", 160).unwrap();
    let back = image::load_from_memory_with_format(&t, image::ImageFormat::Png).unwrap();
    assert_eq!((back.width(), back.height()), (160, 80));
    let small = png_bytes(image::RgbaImage::new(20, 10));
    let t = thumbnail_bytes(&small, "small.png", 160).unwrap();
    let back = image::load_from_memory_with_format(&t, image::ImageFormat::Png).unwrap();
    assert_eq!((back.width(), back.height()), (20, 10));
    assert!(matches!(thumbnail_bytes(&vec![0; 4], "bad.png", 160), Err(Error::Image(_))));
}
