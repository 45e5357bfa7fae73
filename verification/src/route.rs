//! Routing: turn (source format, target format) into a chain of pipeline steps.

use vstd::prelude::*;

use crate::format::{all_formats, all_in_order, Category, Format};

verus! {

#[derive(Debug, Clone, Copy, PartialEq, Eq, Structural)]
pub enum Pipeline {
    /// pure-Rust image codecs
    NativeImage,
    /// ffmpeg / ffprobe sidecar
    Ffmpeg,
    /// libreoffice headless
    LibreOffice,
    /// pandoc sidecar
    Pandoc,
    /// pdftotext / pdftoppm
    Poppler,
    /// tesseract OCR
    Ocr,
    /// qpdf (merge/split/encrypt handled by dedicated commands, not routing)
    Qpdf,
    /// plain file copy (text-ish formats with no transform)
    Copy,
}

#[derive(Debug, Clone, Copy, PartialEq, Eq, Structural)]
pub struct Step {
    pub pipeline: Pipeline,
    /// format this step produces
    pub output: Format,
}

/// A conversion plan = ordered steps. Last step's output == requested target.
#[derive(Debug, Clone)]
pub struct Plan {
    pub steps: Vec<Step>,
}

impl View for Plan {
    type V = Seq<Step>;

    open spec fn view(&self) -> Seq<Step> {
        self.steps@
    }
}

pub open spec fn step(p: Pipeline, out: Format) -> Step {
    Step { pipeline: p, output: out }
}

/// A plan of one step.
pub open spec fn one(p: Pipeline, out: Format) -> Option<Seq<Step>> {
    Some(seq![step(p, out)])
}

/// A plan of two steps.
pub open spec fn two(p: Pipeline, mid: Format, q: Pipeline, out: Format) -> Option<Seq<Step>> {
    Some(seq![step(p, mid), step(q, out)])
}

/// Image sources: everything the image family can read.
pub open spec fn image_src(src: Format) -> bool {
    src.cat() == Category::Image && (src.native_image() || src == Format::Avif || src == Format::Heic)
}

/// Image sources and what they can become.
pub open spec fn route_image(src: Format, dst: Format) -> Option<Seq<Step>> {
    if dst.cat() == Category::Image {
        if dst == Format::Webp || dst == Format::Avif {
            one(Pipeline::Ffmpeg, dst)
        } else if dst == Format::Heic {
            None
        } else if src == Format::Webp || (src.native_image() && src != Format::Webp) {
            one(Pipeline::NativeImage, dst)
        } else {
            one(Pipeline::Ffmpeg, dst)
        }
    } else if dst == Format::Pdf {
        one(Pipeline::LibreOffice, Format::Pdf)
    } else if dst == Format::Txt && src.native_image() {
        one(Pipeline::Ocr, Format::Txt)
    } else if dst.cat() == Category::Video && (src == Format::Gif || src.native_image()) {
        one(Pipeline::Ffmpeg, dst)
    } else {
        None
    }
}

/// Video sources: video, audio, gif and poster frames.
pub open spec fn route_video(dst: Format) -> Option<Seq<Step>> {
    if dst.cat() == Category::Video || dst.cat() == Category::Audio || dst == Format::Gif
        || dst == Format::Png || dst == Format::Jpg || dst == Format::Webp
        || dst == Format::Bmp || dst == Format::Tiff {
        one(Pipeline::Ffmpeg, dst)
    } else {
        None
    }
}

/// Pdf sources: text, page images, and text-first documents.
pub open spec fn route_pdf(dst: Format) -> Option<Seq<Step>> {
    if dst == Format::Txt {
        one(Pipeline::Poppler, Format::Txt)
    } else if dst == Format::Png || dst == Format::Jpg {
        one(Pipeline::Poppler, dst)
    } else if dst == Format::Docx || dst == Format::Odt || dst == Format::Html
        || dst == Format::Rtf || dst == Format::Md {
        two(Pipeline::Poppler, Format::Txt, Pipeline::Pandoc, dst)
    } else {
        None
    }
}

/// Sources pandoc reads.
pub open spec fn pandoc_src(src: Format) -> bool {
    src == Format::Md || src == Format::Html || src == Format::Txt || src == Format::Rtf
        || src == Format::Docx || src == Format::Odt || src == Format::Epub
}

/// Targets pandoc writes.
pub open spec fn pandoc_dst(dst: Format) -> bool {
    dst == Format::Md || dst == Format::Html || dst == Format::Epub || dst == Format::Docx
        || dst == Format::Odt || dst == Format::Rtf || dst == Format::Txt
}

/// Targets LibreOffice writes for office sources.
pub open spec fn office_dst(dst: Format) -> bool {
    dst == Format::Docx || dst == Format::Doc || dst == Format::Odt || dst == Format::Rtf
        || dst == Format::Txt || dst == Format::Html || dst == Format::Csv || dst == Format::Xlsx
        || dst == Format::Xls || dst == Format::Ods || dst == Format::Pptx || dst == Format::Ppt
        || dst == Format::Odp || dst == Format::Epub
}

/// Text, document, sheet and slide sources.
pub open spec fn route_office(src: Format, dst: Format) -> Option<Seq<Step>> {
    if dst == Format::Pdf {
        if src == Format::Md || src == Format::Epub {
            two(Pipeline::Pandoc, Format::Docx, Pipeline::LibreOffice, Format::Pdf)
        } else if pandoc_src(src) || src.cat() == Category::Sheet || src.cat() == Category::Slide
            || src == Format::Doc || src == Format::Csv {
            one(Pipeline::LibreOffice, Format::Pdf)
        } else {
            None
        }
    } else if pandoc_src(src) && pandoc_dst(dst) {
        one(Pipeline::Pandoc, dst)
    } else if office_dst(dst) {
        one(Pipeline::LibreOffice, dst)
    } else if src.cat() == Category::Text && dst.cat() == Category::Text {
        one(Pipeline::Copy, dst)
    } else {
        None
    }
}

/// The pipeline chain for a conversion, or None if unsupported.
pub open spec fn route(src: Format, dst: Format) -> Option<Seq<Step>> {
    if src == dst {
        None
    } else if image_src(src) {
        route_image(src, dst)
    } else if src.cat() == Category::Video {
        route_video(dst)
    } else if src.cat() == Category::Audio {
        if dst.cat() == Category::Audio { one(Pipeline::Ffmpeg, dst) } else { None }
    } else if src == Format::Pdf {
        route_pdf(dst)
    } else if src.cat() == Category::Text || src.cat() == Category::Document
        || src.cat() == Category::Sheet || src.cat() == Category::Slide {
        route_office(src, dst)
    } else {
        None
    }
}

fn s(p: Pipeline, out: Format) -> (r: Step)
    ensures
        r == step(p, out),
{
    Step { pipeline: p, output: out }
}

fn single(p: Pipeline, out: Format) -> (r: Option<Plan>)
    ensures
        r is Some,
        r->0@ == seq![step(p, out)],
{
    let steps = vec![s(p, out)];
    assert(steps@ =~= seq![step(p, out)]);
    Some(Plan { steps })
}

fn double(p: Pipeline, mid: Format, q: Pipeline, out: Format) -> (r: Option<Plan>)
    ensures
        r is Some,
        r->0@ == seq![step(p, mid), step(q, out)],
{
    let steps = vec![s(p, mid), s(q, out)];
    assert(steps@ =~= seq![step(p, mid), step(q, out)]);
    Some(Plan { steps })
}

/// Compute the pipeline chain for a conversion, or None if unsupported.
pub fn plan(src: Format, dst: Format) -> (r: Option<Plan>)
    ensures
        match r {
            Some(p) => route(src, dst) == Some(p@),
            None => route(src, dst) is None,
        },
{
    if src == dst {
        return None;
    }

    // ---------- from images ----------
    if src.category() == Category::Image && (src.is_native_image() || matches!(src, Format::Avif | Format::Heic)) {
        if dst.category() == Category::Image {
            // webp/avif targets always go through ffmpeg (real quality control);
            // heic has no bundled encoder
            if matches!(dst, Format::Webp | Format::Avif) {
                return single(Pipeline::Ffmpeg, dst);
            }
            if dst == Format::Heic {
                return None;
            }
            // avif/heic decode is not native -> let ffmpeg do decode + encode
            if src == Format::Webp || src.is_native_encode() {
                return single(Pipeline::NativeImage, dst);
            }
            return single(Pipeline::Ffmpeg, dst);
        }
        if dst == Format::Pdf {
            return single(Pipeline::LibreOffice, Format::Pdf);
        }
        if dst == Format::Txt && src.is_native_image() {
            return single(Pipeline::Ocr, Format::Txt);
        }
        if dst.is_video() && (src == Format::Gif || src.is_native_image()) {
            // gif/native image -> video (slideshow of a single image is odd but works)
            return single(Pipeline::Ffmpeg, dst);
        }
        return None;
    }

    // ---------- from video ----------
    if src.is_video() {
        if dst.is_video() {
            return single(Pipeline::Ffmpeg, dst);
        }
        if dst.is_audio() {
            return single(Pipeline::Ffmpeg, dst);
        }
        if dst == Format::Gif {
            return single(Pipeline::Ffmpeg, Format::Gif);
        }
        if matches!(dst, Format::Png | Format::Jpg | Format::Webp | Format::Bmp | Format::Tiff) {
            // poster frame (first frame)
            return single(Pipeline::Ffmpeg, dst);
        }
        return None;
    }

    // ---------- from audio ----------
    if src.is_audio() {
        if dst.is_audio() {
            return single(Pipeline::Ffmpeg, dst);
        }
        return None;
    }

    // ---------- from pdf ----------
    if src == Format::Pdf {
        match dst {
            Format::Txt => return single(Pipeline::Poppler, Format::Txt),
            Format::Png | Format::Jpg => return single(Pipeline::Poppler, dst),
            Format::Docx | Format::Odt | Format::Html | Format::Rtf | Format::Md => {
                return double(Pipeline::Poppler, Format::Txt, Pipeline::Pandoc, dst)
            },
            _ => return None,
        }
    }

    // ---------- text / documents / sheets / slides ----------
    let textish_src = matches!(
        src.category(),
        Category::Text | Category::Document | Category::Sheet | Category::Slide
    );
    if textish_src {
        // pandoc-first paths (md/html/txt sources, rich targets)
        let pandoc_src = matches!(src, Format::Md | Format::Html | Format::Txt | Format::Rtf | Format::Docx | Format::Odt | Format::Epub);
        if dst == Format::Pdf {
            // md has no direct LO import; go md -> docx -> pdf
            if matches!(src, Format::Md | Format::Epub) {
                return double(Pipeline::Pandoc, Format::Docx, Pipeline::LibreOffice, Format::Pdf);
            }
            if pandoc_src || matches!(src.category(), Category::Sheet | Category::Slide)
                || matches!(src, Format::Doc | Format::Csv)
            {
                return single(Pipeline::LibreOffice, Format::Pdf);
            }
            return None;
        }
        if pandoc_src && matches!(dst, Format::Md | Format::Html | Format::Epub | Format::Docx | Format::Odt | Format::Rtf | Format::Txt) {
            return single(Pipeline::Pandoc, dst);
        }
        // libreoffice handles the rest of the office/sheet/slide matrix
        let lo_target = matches!(
            dst,
            Format::Docx | Format::Doc | Format::Odt | Format::Rtf | Format::Txt | Format::Html | Format::Csv | Format::Xlsx | Format::Xls | Format::Ods | Format::Pptx | Format::Ppt | Format::Odp | Format::Epub
        );
        if lo_target {
            return single(Pipeline::LibreOffice, dst);
        }
        // json/yaml/csv passthrough for text families
        if matches!(src.category(), Category::Text) && matches!(dst.category(), Category::Text) {
            return single(Pipeline::Copy, dst);
        }
        return None;
    }

    None
}

} // verus!

verus! {

/// The targets reachable from `src`, in display order.
pub open spec fn targets(src: Format) -> Seq<Format> {
    all_formats().filter(reachable_from(src))
}

/// The formats `src` converts to.
pub open spec fn reachable_from(src: Format) -> spec_fn(Format) -> bool {
    |f: Format| route(src, f) is Some
}

/// All targets supported from `src`, grouped for the UI.
pub fn targets_for(src: Format) -> (r: Vec<Format>)
    ensures
        r@ == targets(src),
{
    let all = all_in_order();
    let ghost pred = reachable_from(src);
    let mut out: Vec<Format> = Vec::new();
    let n = all.len();
    let mut i: usize = 0;
    while i < n
        invariant
            n == all@.len(),
            all@ == all_formats(),
            i <= n,
            pred == reachable_from(src),
            out@ == all@.take(i as int).filter(pred),
        decreases n - i,
    {
        reveal_with_fuel(Seq::<_>::filter, 1);
        let f = all[i];
        assert(all@.take(i + 1).drop_last() =~= all@.take(i as int));
        assert(all@.take(i + 1).last() == f);
        match plan(src, f) {
            Some(_) => {
                out.push(f);
            },
            None => {},
        }
        i = i + 1;
    }
    assert(all@.take(n as int) =~= all@);
    out
}

/// Every supported conversion is a chain of one or two engine steps that
/// ends in the requested target, and no route goes through qpdf.
pub proof fn lemma_plan_shape(src: Format, dst: Format)
    requires
        route(src, dst) is Some,
    ensures
        1 <= route(src, dst)->0.len() <= 2,
        route(src, dst)->0.last().output == dst,
        forall|i: int| 0 <= i < route(src, dst)->0.len()
            ==> #[trigger] route(src, dst)->0[i].pipeline != Pipeline::Qpdf,
{
}

/// Converting a format to itself is never planned.
pub proof fn lemma_no_identity_route(f: Format)
    ensures
        route(f, f) is None,
{
}

/// There is no bundled HEIC encoder: nothing converts to HEIC.
pub proof fn lemma_heic_never_target(src: Format)
    ensures
        route(src, Format::Heic) is None,
{
}

/// Audio only converts to other audio formats (no waveform render), and to
/// every one of them.
pub proof fn lemma_audio_stays_audio(src: Format, dst: Format)
    requires
        src.cat() == Category::Audio,
    ensures
        route(src, dst) is Some <==> (dst.cat() == Category::Audio && dst != src),
{
}

/// Every image converts to webp and avif, and always through ffmpeg.
pub proof fn lemma_webp_avif_via_ffmpeg(src: Format, dst: Format)
    requires
        src.cat() == Category::Image,
        dst == Format::Webp || dst == Format::Avif,
        src != dst,
    ensures
        route(src, dst) == one(Pipeline::Ffmpeg, dst),
{
}

/// The targets listed for a source are exactly the formats it can be
/// converted to, and never the source itself.
pub proof fn lemma_targets_exact(src: Format, f: Format)
    ensures
        targets(src).contains(f) <==> route(src, f) is Some,
        !targets(src).contains(src),
{
    let pred = reachable_from(src);
    let all = all_formats();
    crate::format::lemma_all_formats_complete(f);
    if route(src, f) is Some {
        let i = choose|i: int| 0 <= i < all.len() && all[i] == f;
        all.lemma_filter_contains(pred, i);
    }
    if targets(src).contains(f) {
        let j = choose|j: int| 0 <= j < targets(src).len() && targets(src)[j] == f;
        all.lemma_filter_pred(pred, j);
    }
    if targets(src).contains(src) {
        let j = choose|j: int| 0 <= j < targets(src).len() && targets(src)[j] == src;
        all.lemma_filter_pred(pred, j);
    }
}

/// A PDF is rasterised to page images (png and jpg) and extracted to text
/// by poppler in one step that writes the target itself; it becomes an
/// editable document (docx, odt, html, rtf, md) by extracting its text and
/// handing that to pandoc; and it becomes nothing else.
pub proof fn lemma_pdf_routes(dst: Format)
    ensures
        (dst == Format::Png || dst == Format::Jpg || dst == Format::Txt)
            ==> route(Format::Pdf, dst) == Some(seq![Step { pipeline: Pipeline::Poppler, output: dst }]),
        (dst == Format::Docx || dst == Format::Odt || dst == Format::Html || dst == Format::Rtf || dst == Format::Md)
            ==> route(Format::Pdf, dst) == Some(seq![
                Step { pipeline: Pipeline::Poppler, output: Format::Txt },
                Step { pipeline: Pipeline::Pandoc, output: dst },
            ]),
        route(Format::Pdf, dst) is Some <==> (dst == Format::Png || dst == Format::Jpg || dst == Format::Txt
            || dst == Format::Docx || dst == Format::Odt || dst == Format::Html || dst == Format::Rtf
            || dst == Format::Md),
        route(Format::Pdf, dst) is Some ==> route(Format::Pdf, dst)->0[0].pipeline == Pipeline::Poppler,
{
}

/// An image the native codecs read goes to any other image format they
/// write (all but webp) in one native step that writes the target.
pub proof fn lemma_native_images_stay_native(src: Format, dst: Format)
    requires
        src.native_image(),
        dst.native_image(),
        dst != Format::Webp,
        src != dst,
    ensures
        route(src, dst) == Some(seq![Step { pipeline: Pipeline::NativeImage, output: dst }]),
{
}

/// A video goes to every other video format, every audio format, and to gif
/// and the still-image formats png, jpg, webp, bmp and tiff, always by one
/// ffmpeg step that writes the target; to nothing else.
pub proof fn lemma_video_routes(src: Format, dst: Format)
    requires
        src.cat() == Category::Video,
    ensures
        route(src, dst) is Some <==> (dst != src && (dst.cat() == Category::Video || dst.cat() == Category::Audio
            || dst == Format::Gif || dst == Format::Png || dst == Format::Jpg || dst == Format::Webp
            || dst == Format::Bmp || dst == Format::Tiff)),
        route(src, dst) is Some ==> route(src, dst) == Some(seq![Step { pipeline: Pipeline::Ffmpeg, output: dst }]),
{
}

/// Documents, sheets and slides are printed to PDF by LibreOffice; markdown
/// and epub, which it cannot open, are first written to docx by pandoc.
pub proof fn lemma_office_to_pdf(src: Format)
    requires
        src.cat() == Category::Document || src.cat() == Category::Sheet || src.cat() == Category::Slide
            || src == Format::Md || src == Format::Txt || src == Format::Html || src == Format::Csv,
    ensures
        (src == Format::Md || src == Format::Epub) ==> route(src, Format::Pdf) == Some(seq![
            Step { pipeline: Pipeline::Pandoc, output: Format::Docx },
            Step { pipeline: Pipeline::LibreOffice, output: Format::Pdf },
        ]),
        !(src == Format::Md || src == Format::Epub) ==> route(src, Format::Pdf) == Some(seq![
            Step { pipeline: Pipeline::LibreOffice, output: Format::Pdf },
        ]),
{
}

/// Images print to PDF through LibreOffice; the images the native codecs
/// read are read as text by OCR and become a short video clip through
/// ffmpeg; avif and heic, which the native codecs cannot read, are converted
/// to the other image formats (never to heic) by ffmpeg.
pub proof fn lemma_image_routes(src: Format, dst: Format)
    requires
        src.cat() == Category::Image,
    ensures
        route(src, Format::Pdf) == Some(seq![Step { pipeline: Pipeline::LibreOffice, output: Format::Pdf }]),
        src.native_image() ==> route(src, Format::Txt) == Some(seq![Step { pipeline: Pipeline::Ocr, output: Format::Txt }]),
        (src.native_image() && dst.cat() == Category::Video)
            ==> route(src, dst) == Some(seq![Step { pipeline: Pipeline::Ffmpeg, output: dst }]),
        (!src.native_image() && dst.cat() == Category::Image && dst != src && dst != Format::Heic)
            ==> route(src, dst) == Some(seq![Step { pipeline: Pipeline::Ffmpeg, output: dst }]),
        (!src.native_image() && dst.cat() != Category::Image && dst != Format::Pdf) ==> route(src, dst) is None,
{
}

/// Between the formats pandoc both reads and writes (md, html, txt, rtf,
/// docx, odt, epub) a conversion is one pandoc step; sheets and slides go
/// to the office formats LibreOffice writes in one LibreOffice step.
pub proof fn lemma_document_routes(src: Format, dst: Format)
    ensures
        ((src == Format::Md || src == Format::Html || src == Format::Txt || src == Format::Rtf
            || src == Format::Docx || src == Format::Odt || src == Format::Epub)
            && (dst == Format::Md || dst == Format::Html || dst == Format::Txt || dst == Format::Rtf
            || dst == Format::Docx || dst == Format::Odt || dst == Format::Epub) && src != dst)
            ==> route(src, dst) == Some(seq![Step { pipeline: Pipeline::Pandoc, output: dst }]),
        ((src.cat() == Category::Sheet || src.cat() == Category::Slide) && src != dst
            && (dst == Format::Xlsx || dst == Format::Xls || dst == Format::Ods || dst == Format::Csv
            || dst == Format::Pptx || dst == Format::Ppt || dst == Format::Odp))
            ==> route(src, dst) == Some(seq![Step { pipeline: Pipeline::LibreOffice, output: dst }]),
{
}

} // verus!
