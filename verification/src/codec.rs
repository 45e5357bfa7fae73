//! The native image pipeline on bytes: images are decoded and encoded by
//! the `image` crate; which format is read, which codec writes, the JPEG
//! quality, compositing onto white and thumbnail scaling are decided here.
//! Each image the crate holds carries, as plain values, where it came from;
//! what the crate makes of that is named below.

use vstd::prelude::*;

use crate::error::{Error, Result};
use crate::format::Format;
use crate::image::{codec_for, flatten_on_white, flattened_byte, jpeg_quality, native_codec, needs_downscale, ImageCodec};
use crate::paths::{ext_of, path_extension};

verus! {

#[verifier::external_type_specification]
#[verifier::external_body]
pub struct ExDynamicImage(image::DynamicImage);

/// Where an image came from: decoded from a file's bytes (with the file's
/// extension, which picks the format), built from 8-bit RGBA pixels, or
/// scaled from another image to fit a box.
pub enum ImageSource {
    Decoded(Seq<u8>, Option<Seq<char>>),
    Rgba8(u32, u32, Seq<u8>),
    Resized(Box<ImageSource>, u32, u32),
}

/// An image held by the image crate, with where it came from.
pub struct Image {
    img: image::DynamicImage,
    pub source: Ghost<ImageSource>,
}

/// Whether the image crate decodes these bytes (`ImageReader::decode`, the
/// format set by `ImageFormat::from_extension` of the extension when it
/// knows it).
pub uninterp spec fn decodes(bytes: Seq<u8>, ext: Option<Seq<char>>) -> bool;

/// The size and pixels of an image the crate stores as 8-bit RGBA
/// (`DynamicImage::ImageRgba8`, `ImageBuffer::as_raw`), none for any other
/// layout.
pub uninterp spec fn rgba8_of(src: ImageSource) -> Option<(u32, u32, Seq<u8>)>;

/// What `DynamicImage::write_to` writes for an image in a codec's format,
/// none when it fails.
pub uninterp spec fn encoded(src: ImageSource, codec: ImageCodec) -> Option<Seq<u8>>;

/// What `DynamicImage::write_with_encoder` writes with
/// `JpegEncoder::new_with_quality(quality)`, none when it fails.
pub uninterp spec fn jpeg_encoded(src: ImageSource, quality: u8) -> Option<Seq<u8>>;

/// `DynamicImage::width` and `height` of an image.
pub uninterp spec fn size_of(src: ImageSource) -> (u32, u32);

pub open spec fn opt_view(s: Option<&str>) -> Option<Seq<char>> {
    match s {
        Some(e) => Some(e@),
        None => None,
    }
}

/// `ImageReader::decode` on bytes in memory, the format set from the
/// extension by `ImageFormat::from_extension` when it knows it: it succeeds
/// exactly when the bytes decode; a failure carries the crate's message.
#[verifier::external_body]
fn decode_image(bytes: &[u8], ext: Option<&str>) -> (r: core::result::Result<Image, String>)
    ensures
        r is Ok <==> decodes(bytes@, opt_view(ext)),
        r is Ok ==> r->Ok_0.source@ == ImageSource::Decoded(bytes@, opt_view(ext)),
{
    let mut reader = image::ImageReader::new(std::io::Cursor::new(bytes));
    if let Some(e) = ext {
        if let Some(f) = image::ImageFormat::from_extension(e) {
            reader.set_format(f);
        }
    }
    match reader.decode() {
        Ok(img) => Ok(Image { img, source: Ghost(ImageSource::Decoded(bytes@, opt_view(ext))) }),
        Err(e) => Err(e.to_string()),
    }
}

/// The size and pixel bytes of an image stored as 8-bit RGBA, as named by
/// [`rgba8_of`].
#[verifier::external_body]
fn rgba8_pixels(img: &Image) -> (r: Option<(u32, u32, Vec<u8>)>)
    ensures
        match r {
            Some((w, h, px)) => rgba8_of(img.source@) == Some((w, h, px@)),
            None => rgba8_of(img.source@) is None,
        },
{
    match &img.img {
        image::DynamicImage::ImageRgba8(b) => Some((b.width(), b.height(), b.as_raw().clone())),
        _ => None,
    }
}

/// `RgbaImage::from_raw` as an image: it is made exactly when the bytes hold
/// at least `width * height` pixels of four bytes (and that count fits a
/// `usize`).
#[verifier::external_body]
fn rgba8_image(width: u32, height: u32, pixels: Vec<u8>) -> (r: Option<Image>)
    ensures
        r is Some <==> (4 * width <= usize::MAX && 4 * width * height <= pixels@.len()),
        r is Some ==> r->0.source@ == ImageSource::Rgba8(width, height, pixels@),
{
    let ghost px = pixels@;
    match image::RgbaImage::from_raw(width, height, pixels) {
        Some(buf) => Some(Image { img: image::DynamicImage::ImageRgba8(buf), source: Ghost(ImageSource::Rgba8(width, height, px)) }),
        None => None,
    }
}

/// `DynamicImage::write_with_encoder` with `JpegEncoder::new_with_quality`,
/// into memory, as named by [`jpeg_encoded`]; a failure carries the crate's
/// message.
#[verifier::external_body]
fn encode_jpeg(img: &Image, quality: u8) -> (r: core::result::Result<Vec<u8>, String>)
    ensures
        r is Ok <==> jpeg_encoded(img.source@, quality) is Some,
        r is Ok ==> r->Ok_0@ == jpeg_encoded(img.source@, quality)->0,
{
    let mut out = std::io::Cursor::new(Vec::new());
    match img.img.write_with_encoder(image::codecs::jpeg::JpegEncoder::new_with_quality(&mut out, quality)) {
        Ok(()) => Ok(out.into_inner()),
        Err(e) => Err(e.to_string()),
    }
}

/// `DynamicImage::write_to` in a codec's format (variant for variant:
/// png, jpeg, gif, bmp, tiff, ico), into memory, as named by [`encoded`]; a
/// failure carries the crate's message.
#[verifier::external_body]
fn encode_as(img: &Image, codec: ImageCodec) -> (r: core::result::Result<Vec<u8>, String>)
    ensures
        r is Ok <==> encoded(img.source@, codec) is Some,
        r is Ok ==> r->Ok_0@ == encoded(img.source@, codec)->0,
{
    let format = match codec {
        ImageCodec::Png => image::ImageFormat::Png,
        ImageCodec::Jpeg => image::ImageFormat::Jpeg,
        ImageCodec::Gif => image::ImageFormat::Gif,
        ImageCodec::Bmp => image::ImageFormat::Bmp,
        ImageCodec::Tiff => image::ImageFormat::Tiff,
        ImageCodec::Ico => image::ImageFormat::Ico,
    };
    let mut out = std::io::Cursor::new(Vec::new());
    match img.img.write_to(&mut out, format) {
        Ok(()) => Ok(out.into_inner()),
        Err(e) => Err(e.to_string()),
    }
}

/// `DynamicImage::width` and `height`.
#[verifier::external_body]
fn image_size(img: &Image) -> (r: (u32, u32))
    ensures
        r == size_of(img.source@),
{
    (img.img.width(), img.img.height())
}

/// `DynamicImage::resize` with the triangle filter: scaled to fit the box,
/// keeping the aspect ratio.
#[verifier::external_body]
fn resize_triangle(img: &Image, width: u32, height: u32) -> (r: Image)
    ensures
        r.source@ == ImageSource::Resized(Box::new(img.source@), width, height),
{
    let resized = img.img.resize(width, height, image::imageops::FilterType::Triangle);
    Image { img: resized, source: Ghost(ImageSource::Resized(Box::new(img.source@), width, height)) }
}

/// The extension a source file name gives to the decoder.
pub open spec fn source_ext(src_name: Seq<char>) -> Option<Seq<char>> {
    ext_of(src_name)
}

/// RGBA8 pixels composited onto white, byte for byte (see
/// [`flattened_byte`]).
pub open spec fn flattened(px: Seq<u8>) -> Seq<u8> {
    Seq::new(px.len(), |i: int| flattened_byte(px, i) as u8)
}

/// The image JPEG is written from: an 8-bit RGBA image composited onto
/// white (its bytes, when they are whole pixels, rebuilt into an image when
/// they hold its size), any other image as it is.
pub open spec fn jpeg_source(src: ImageSource) -> ImageSource {
    match rgba8_of(src) {
        Some((w, h, px)) => {
            let px2 = if px.len() % 4 == 0 { flattened(px) } else { px };
            if 4 * w <= usize::MAX && 4 * w * h <= px2.len() {
                ImageSource::Rgba8(w, h, px2)
            } else {
                src
            }
        },
        None => src,
    }
}

/// What the native pipeline writes for a decodable source in a codec.
pub open spec fn converted(src: ImageSource, codec: ImageCodec, quality: Option<u8>) -> Option<Seq<u8>> {
    if codec == ImageCodec::Jpeg {
        jpeg_encoded(jpeg_source(src), jpeg_q(quality))
    } else {
        encoded(src, codec)
    }
}

pub open spec fn jpeg_q(quality: Option<u8>) -> u8 {
    match quality {
        Some(q) => if q < 1 { 1 } else if q > 100 { 100 } else { q },
        None => 88,
    }
}

/// Only JPEG output touches the pixels: every other codec writes the decoded
/// image as it is; JPEG writes it at the requested quality kept within
/// 1..=100 (88 when none is asked for), from the image composited onto white,
/// which for an 8-bit RGBA image of whole pixels keeps its size and makes
/// every pixel opaque.
pub proof fn lemma_only_jpeg_flattens(src: ImageSource, codec: ImageCodec, quality: Option<u8>)
    ensures
        codec != ImageCodec::Jpeg ==> converted(src, codec, quality) == encoded(src, codec),
        codec == ImageCodec::Jpeg ==> converted(src, codec, quality) == jpeg_encoded(jpeg_source(src), jpeg_q(quality)),
        1 <= jpeg_q(quality) <= 100,
        quality matches Some(q) ==> (1 <= q <= 100 ==> jpeg_q(quality) == q),
        quality is None ==> jpeg_q(quality) == 88,
        rgba8_of(src) matches Some((w, h, px)) ==> (px.len() % 4 == 0 && 4 * w <= usize::MAX && 4 * w * h <= px.len()
            ==> {
                let j = jpeg_source(src);
                &&& j matches ImageSource::Rgba8(w2, h2, px2)
                &&& w2 == w && h2 == h && px2.len() == px.len()
                &&& forall|i: int| 0 <= i < px.len() && i % 4 == 3 ==> #[trigger] px2[i] == 255
            }),
{
    if let Some((w, h, px)) = rgba8_of(src) {
        if px.len() % 4 == 0 && 4 * w <= usize::MAX && 4 * w * h <= px.len() {
            let px2 = flattened(px);
            assert forall|i: int| 0 <= i < px.len() && i % 4 == 3 implies #[trigger] px2[i] == 255 by {}
        }
    }
}

/// Decodes a source file's bytes in the format the image crate reads for
/// the file's extension.
fn decode_source(bytes: &Vec<u8>, src_name: &str) -> (r: Result<Image>)
    ensures
        r is Ok <==> decodes(bytes@, source_ext(src_name@)),
        r is Ok ==> r->Ok_0.source@ == ImageSource::Decoded(bytes@, source_ext(src_name@)),
        r is Err ==> r->Err_0 is Image,
{
    let ext = path_extension(src_name);
    let r = match &ext {
        Some(e) => decode_image(bytes.as_slice(), Some(e.as_str())),
        None => decode_image(bytes.as_slice(), None),
    };
    match r {
        Ok(img) => Ok(img),
        Err(m) => Err(Error::Image(m)),
    }
}

/// JPEG has no alpha: an 8-bit RGBA image is composited onto white (see
/// [`flatten_on_white`]); other layouts are kept.
fn flatten_image(img: Image) -> (r: Image)
    ensures
        r.source@ == jpeg_source(img.source@),
{
    match rgba8_pixels(&img) {
        Some((w, h, px)) => {
            let ghost orig = px@;
            let mut px = px;
            if px.len() % 4 == 0 {
                flatten_on_white(&mut px);
                assert(px@ =~= flattened(orig));
            }
            match rgba8_image(w, h, px) {
                Some(flat) => flat,
                None => img,
            }
        },
        None => img,
    }
}

/// Converts the bytes of an image file named `src_name` to `target` with the
/// native codecs. A target they cannot write fails before anything is
/// decoded; bytes that do not decode fail with an image error; JPEG is
/// written at [`jpeg_quality`] after compositing onto white, the other
/// codecs write the decoded image; an encoding failure is an image error.
pub fn convert_bytes(src: &Vec<u8>, src_name: &str, target: Format, quality: Option<u8>) -> (r: Result<Vec<u8>>)
    ensures
        codec_for(target) is None ==> (r matches Err(Error::Other(m))
            && m@ == "native image pipeline cannot encode "@ + target.ext()),
        codec_for(target) is Some && !decodes(src@, source_ext(src_name@)) ==> r matches Err(Error::Image(_)),
        codec_for(target) is Some && decodes(src@, source_ext(src_name@)) ==> match converted(
            ImageSource::Decoded(src@, source_ext(src_name@)), codec_for(target)->0, quality) {
            Some(out) => r matches Ok(v) && v@ == out,
            None => r matches Err(Error::Image(_)),
        },
{
    let codec = match native_codec(target) {
        Ok(c) => c,
        Err(e) => return Err(e),
    };
    let img = match decode_source(src, src_name) {
        Ok(i) => i,
        Err(e) => return Err(e),
    };
    let out = match codec {
        ImageCodec::Jpeg => encode_jpeg(&flatten_image(img), jpeg_quality(quality)),
        _ => encode_as(&img, codec),
    };
    match out {
        Ok(bytes) => Ok(bytes),
        Err(m) => Err(Error::Image(m)),
    }
}

/// The image a thumbnail is made from: scaled to fit a `max_edge` square
/// when either side is longer, else the image itself.
pub open spec fn thumb_source(src: ImageSource, max_edge: u32) -> ImageSource {
    let (w, h) = size_of(src);
    if w > max_edge || h > max_edge {
        ImageSource::Resized(Box::new(src), max_edge, max_edge)
    } else {
        src
    }
}

/// A PNG thumbnail of an image file's bytes: the image scaled down to fit a
/// `max_edge` square when either side is longer, else kept at its size,
/// written as PNG. Failures carry the image crate's message.
pub fn thumbnail_bytes(src: &Vec<u8>, src_name: &str, max_edge: u32) -> (r: Result<Vec<u8>>)
    ensures
        !decodes(src@, source_ext(src_name@)) ==> r matches Err(Error::Image(_)),
        decodes(src@, source_ext(src_name@)) ==> match encoded(
            thumb_source(ImageSource::Decoded(src@, source_ext(src_name@)), max_edge), ImageCodec::Png) {
            Some(out) => r matches Ok(v) && v@ == out,
            None => r matches Err(Error::Image(_)),
        },
{
    let img = match decode_source(src, src_name) {
        Ok(i) => i,
        Err(e) => return Err(e),
    };
    let (w, h) = image_size(&img);
    let thumb = if needs_downscale(w, h, max_edge) {
        resize_triangle(&img, max_edge, max_edge)
    } else {
        img
    };
    match encode_as(&thumb, ImageCodec::Png) {
        Ok(bytes) => Ok(bytes),
        Err(m) => Err(Error::Image(m)),
    }
}

} // verus!
