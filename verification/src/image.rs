//! Native image pipeline decisions: which codec encodes a target, the JPEG
//! quality, compositing transparent pixels onto white, thumbnails.

use vstd::prelude::*;

use crate::error::{Error, Result};
use crate::format::Format;
use crate::text::{concat, string_of};

verus! {

/// The native codecs the image pipeline encodes with.
#[derive(Debug, Clone, Copy, PartialEq, Eq, Structural)]
pub enum ImageCodec {
    Png,
    Jpeg,
    Gif,
    Bmp,
    Tiff,
    Ico,
}

/// The extension of the files a codec writes.
pub open spec fn codec_ext(c: ImageCodec) -> Seq<char> {
    match c {
        ImageCodec::Png => "png"@,
        ImageCodec::Jpeg => "jpg"@,
        ImageCodec::Gif => "gif"@,
        ImageCodec::Bmp => "bmp"@,
        ImageCodec::Tiff => "tiff"@,
        ImageCodec::Ico => "ico"@,
    }
}

/// The native codec that writes a format, if any.
pub open spec fn codec_for(f: Format) -> Option<ImageCodec> {
    match f {
        Format::Png => Some(ImageCodec::Png),
        Format::Jpg => Some(ImageCodec::Jpeg),
        Format::Gif => Some(ImageCodec::Gif),
        Format::Bmp => Some(ImageCodec::Bmp),
        Format::Tiff => Some(ImageCodec::Tiff),
        Format::Ico => Some(ImageCodec::Ico),
        _ => None,
    }
}

/// The native codec that writes a format, if any.
pub fn im_format(f: Format) -> (r: Option<ImageCodec>)
    ensures
        r == codec_for(f),
{
    match f {
        Format::Png => Some(ImageCodec::Png),
        Format::Jpg => Some(ImageCodec::Jpeg),
        Format::Gif => Some(ImageCodec::Gif),
        Format::Bmp => Some(ImageCodec::Bmp),
        Format::Tiff => Some(ImageCodec::Tiff),
        Format::Ico => Some(ImageCodec::Ico),
        _ => None,
    }
}

/// The codec for a native conversion, or why the native pipeline cannot
/// encode the target.
pub fn native_codec(target: Format) -> (r: Result<ImageCodec>)
    ensures
        match codec_for(target) {
            Some(c) => r matches Ok(d) && d == c,
            None => r matches Err(Error::Other(m)) && m@ == "native image pipeline cannot encode "@ + target.ext(),
        },
{
    match im_format(target) {
        Some(c) => Ok(c),
        None => Err(Error::Other(concat("native image pipeline cannot encode ", target.extension()))),
    }
}

/// JPEG quality: the requested one within 1..=100, 88 by default.
pub fn jpeg_quality(quality: Option<u8>) -> (r: u8)
    ensures
        r == match quality {
            Some(q) => if q < 1 { 1 } else if q > 100 { 100 } else { q },
            None => 88,
        },
{
    let q = match quality {
        Some(q) => q,
        None => 88,
    };
    if q < 1 { 1 } else if q > 100 { 100 } else { q }
}

/// A colour channel of a pixel with alpha `a` composited onto white.
pub open spec fn blend_white(c: u8, a: u8) -> int {
    (c as int * a as int + 255 * (255 - a as int)) / 255
}

/// Byte `i` of an RGBA8 buffer after compositing every pixel onto white:
/// colour channels of translucent pixels are blended, alpha becomes opaque.
pub open spec fn flattened_byte(px: Seq<u8>, i: int) -> int {
    let base = i - i % 4;
    let a = px[base + 3];
    if i % 4 == 3 {
        255
    } else if a < 255 {
        blend_white(px[i], a)
    } else {
        px[i] as int
    }
}

fn blend(c: u8, a: u8) -> (r: u8)
    ensures
        r == blend_white(c, a),
{
    let cc: u32 = c as u32;
    let aa: u32 = a as u32;
    assert(cc * aa <= 255 * aa) by (nonlinear_arith)
        requires
            cc <= 255,
    ;
    let v: u32 = (cc * aa + 255 * (255 - aa)) / 255;
    v as u8
}

/// JPEG has no alpha: composite an RGBA8 pixel buffer onto white.
pub fn flatten_on_white(pixels: &mut Vec<u8>)
    requires
        old(pixels)@.len() % 4 == 0,
    ensures
        final(pixels)@.len() == old(pixels)@.len(),
        forall|i: int| 0 <= i < old(pixels)@.len() ==> #[trigger] final(pixels)@[i] as int == flattened_byte(old(pixels)@, i),
{
    let n = pixels.len();
    let ghost orig = pixels@;
    let mut p: usize = 0;
    while p < n
        invariant
            n == pixels@.len(),
            n == orig.len(),
            n % 4 == 0,
            p % 4 == 0,
            p <= n,
            forall|i: int| 0 <= i < p ==> #[trigger] pixels@[i] as int == flattened_byte(orig, i),
            forall|i: int| p <= i < n ==> #[trigger] pixels@[i] == orig[i],
        decreases n - p,
    {
        let a = pixels[p + 3];
        if a < 255 {
            let r0 = blend(pixels[p], a);
            pixels.set(p, r0);
            let r1 = blend(pixels[p + 1], a);
            pixels.set(p + 1, r1);
            let r2 = blend(pixels[p + 2], a);
            pixels.set(p + 2, r2);
        }
        pixels.set(p + 3, 255);
        proof {
            assert forall|i: int| 0 <= i < p + 4 implies #[trigger] pixels@[i] as int == flattened_byte(orig, i) by {
                if i >= p {
                    assert(i - i % 4 == p);
                }
            }
        }
        p = p + 4;
    }
}

/// Compositing onto white makes every pixel opaque, keeps opaque pixels as
/// they were, turns fully transparent ones white, and puts every colour
/// channel between its own value and white.
pub proof fn lemma_flatten_on_white(px: Seq<u8>, i: int)
    requires
        px.len() % 4 == 0,
        0 <= i < px.len(),
    ensures
        i % 4 == 3 ==> flattened_byte(px, i) == 255,
        i % 4 != 3 ==> px[i] <= flattened_byte(px, i) <= 255,
        (i % 4 != 3 && px[i - i % 4 + 3] == 255) ==> flattened_byte(px, i) == px[i],
        (i % 4 != 3 && px[i - i % 4 + 3] == 0) ==> flattened_byte(px, i) == 255,
{
    let a = px[i - i % 4 + 3];
    let c = px[i];
    if i % 4 != 3 && a < 255 {
        assert(c as int * 255 <= c as int * a as int + 255 * (255 - a as int)) by (nonlinear_arith)
            requires c <= 255, a <= 255;
        assert(c as int * a as int + 255 * (255 - a as int) <= 255 * 255) by (nonlinear_arith)
            requires c <= 255, a <= 255;
        assert(c as int <= (c as int * a as int + 255 * (255 - a as int)) / 255) by (nonlinear_arith)
            requires c as int * 255 <= c as int * a as int + 255 * (255 - a as int);
        assert((c as int * a as int + 255 * (255 - a as int)) / 255 <= 255) by (nonlinear_arith)
            requires c as int * a as int + 255 * (255 - a as int) <= 255 * 255, c as int * a as int + 255 * (255 - a as int) >= 0;
    }
}

/// Whether a thumbnail must be scaled down to fit `max_edge`.
pub fn needs_downscale(width: u32, height: u32, max_edge: u32) -> (r: bool)
    ensures
        r == (width > max_edge || height > max_edge),
{
    let longest = if width > height { width } else { height };
    longest > max_edge
}

} // verus!

verus! {

/// What `base64::engine::general_purpose::STANDARD.encode` gives for some
/// bytes (standard alphabet, padded).
pub uninterp spec fn base64_standard(bytes: Seq<u8>) -> Seq<char>;

/// `base64::engine::general_purpose::STANDARD.encode`: the result is named
/// `base64_standard` of the bytes. It panics when the encoded length
/// overflows `usize`, which the bound on the input rules out.
#[verifier::external_body]
fn base64_encode(bytes: &[u8]) -> (r: String)
    requires
        bytes@.len() <= usize::MAX / 2,
    ensures
        r@ == base64_standard(bytes@),
{
    base64::Engine::encode(&base64::engine::general_purpose::STANDARD, bytes)
}

/// A `data:` URL carrying PNG bytes given in base64.
pub open spec fn png_data_url(b64: Seq<char>) -> Seq<char> {
    "data:image/png;base64,"@ + b64
}

/// A `data:` URL carrying PNG bytes given in base64.
pub fn data_url_from_base64(b64: &str) -> (r: String)
    ensures
        r@ == png_data_url(b64@),
{
    concat("data:image/png;base64,", b64)
}

/// The thumbnail PNG as a `data:` URL the UI can show.
pub fn thumbnail_data_url(png: &Vec<u8>) -> (r: String)
    requires
        png@.len() <= usize::MAX / 2,
    ensures
        r@ == png_data_url(base64_standard(png@)),
{
    let b64 = base64_encode(png.as_slice());
    data_url_from_base64(b64.as_str())
}

/// The native pipeline writes every format its codecs read except webp
/// (which goes through ffmpeg), each with the codec of that very format:
/// the codec chosen for a target writes files of the target's extension,
/// and no two targets share a codec.
pub proof fn lemma_codec_writes_the_target(f: Format, g: Format)
    ensures
        codec_for(f) is Some <==> (f.native_image() && f != Format::Webp),
        codec_for(f) matches Some(c) ==> codec_ext(c) == f.ext(),
        (codec_for(f) is Some && f != g) ==> codec_for(f) != codec_for(g),
{
}

} // verus!
