use morpho_engine::error::Error;
use morpho_engine::format::Format;
use morpho_engine::image::{
    data_url_from_base64, flatten_on_white, im_format, jpeg_quality, native_codec, needs_downscale, thumbnail_data_url,
    ImageCodec,
};

#[test]
fn codecs_for_native_targets() {
    assert_eq!(im_format(Format::Png), Some(ImageCodec::Png));
    assert_eq!(im_format(Format::Jpg), Some(ImageCodec::Jpeg));
    assert_eq!(im_format(Format::Ico), Some(ImageCodec::Ico));
    assert_eq!(im_format(Format::Webp), None);
    assert_eq!(native_codec(Format::Tiff).unwrap(), ImageCodec::Tiff);
    match native_codec(Format::Webp) {
        Err(Error::Other(m)) => assert_eq!(m, "native image pipeline cannot encode webp"),
        other => panic!("unexpected {other:?}"),
    }
}

#[test]
fn jpeg_quality_defaults_and_bounds() {
    assert_eq!(jpeg_quality(None), 88);
    assert_eq!(jpeg_quality(Some(0)), 1);
    assert_eq!(jpeg_quality(Some(55)), 55);
    assert_eq!(jpeg_quality(Some(200)), 100);
}

#[test]
fn translucent_pixels_land_on_white() {
    let mut px = vec![
        0, 0, 0, 0, // transparent black -> white
        200, 100, 50, 255, // opaque stays
        0, 255, 0, 128, // half green
    ];
    flatten_on_white(&mut px);
    assert_eq!(px, vec![255, 255, 255, 255, 200, 100, 50, 255, 127, 255, 127, 255]);
    let mut empty: Vec<u8> = Vec::new();
    flatten_on_white(&mut empty);
    assert!(empty.is_empty());
}

#[test]
fn thumbnails() {
    assert!(!needs_downscale(160, 100, 160));
    assert!(needs_downscale(161, 10, 160));
    assert!(needs_downscale(10, 400, 160));
    assert_eq!(data_url_from_base64("QUJD"), "data:image/png;base64,QUJD");
    assert_eq!(thumbnail_data_url(&vec![1, 2, 3]), "data:image/png;base64,AQID");
    assert_eq!(thumbnail_data_url(&b"hello".to_vec()), "data:image/png;base64,aGVsbG8=");
    assert_eq!(thumbnail_data_url(&Vec::new()), "data:image/png;base64,");
}
