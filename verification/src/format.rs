//! Format matrix: every format Morpho can talk about, its category and extensions.

use vstd::prelude::*;

use crate::text::{ascii_lowercase, concat, lower_seq, str_eq, strip_leading, trim, trim_seq, trim_start_char};

verus! {

#[derive(Debug, Clone, Copy, PartialEq, Eq, Hash, Structural)]
pub enum Format {
    // image
    Png,
    Jpg,
    Webp,
    Gif,
    Bmp,
    Tiff,
    Ico,
    Avif,
    Heic,
    // video
    Mp4,
    Mkv,
    Webm,
    Mov,
    Avi,
    M4v,
    Wmv,
    Flv,
    // audio
    Mp3,
    Wav,
    Flac,
    Ogg,
    Opus,
    M4a,
    Aac,
    // text / documents
    Txt,
    Md,
    Html,
    Json,
    Csv,
    Yaml,
    Rtf,
    Docx,
    Doc,
    Odt,
    Epub,
    // spreadsheets
    Xlsx,
    Xls,
    Ods,
    // slides
    Pptx,
    Ppt,
    Odp,
    // pdf
    Pdf,
}

#[derive(Debug, Clone, Copy, PartialEq, Eq, Hash, Structural)]
pub enum Category {
    Image,
    Video,
    Audio,
    Text,
    Document,
    Sheet,
    Slide,
    Pdf,
}

impl Format {
    /// The canonical file extension of a format.
    pub open spec fn ext(self) -> Seq<char> {
        match self {
            Format::Png => "png"@,
            Format::Jpg => "jpg"@,
            Format::Webp => "webp"@,
            Format::Gif => "gif"@,
            Format::Bmp => "bmp"@,
            Format::Tiff => "tiff"@,
            Format::Ico => "ico"@,
            Format::Avif => "avif"@,
            Format::Heic => "heic"@,
            Format::Mp4 => "mp4"@,
            Format::Mkv => "mkv"@,
            Format::Webm => "webm"@,
            Format::Mov => "mov"@,
            Format::Avi => "avi"@,
            Format::M4v => "m4v"@,
            Format::Wmv => "wmv"@,
            Format::Flv => "flv"@,
            Format::Mp3 => "mp3"@,
            Format::Wav => "wav"@,
            Format::Flac => "flac"@,
            Format::Ogg => "ogg"@,
            Format::Opus => "opus"@,
            Format::M4a => "m4a"@,
            Format::Aac => "aac"@,
            Format::Txt => "txt"@,
            Format::Md => "md"@,
            Format::Html => "html"@,
            Format::Json => "json"@,
            Format::Csv => "csv"@,
            Format::Yaml => "yaml"@,
            Format::Rtf => "rtf"@,
            Format::Docx => "docx"@,
            Format::Doc => "doc"@,
            Format::Odt => "odt"@,
            Format::Epub => "epub"@,
            Format::Xlsx => "xlsx"@,
            Format::Xls => "xls"@,
            Format::Ods => "ods"@,
            Format::Pptx => "pptx"@,
            Format::Ppt => "ppt"@,
            Format::Odp => "odp"@,
            Format::Pdf => "pdf"@,
        }
    }

    pub fn extension(self) -> (r: &'static str)
        ensures
            r@ == self.ext(),
    {
        match self {
            Format::Png => "png",
            Format::Jpg => "jpg",
            Format::Webp => "webp",
            Format::Gif => "gif",
            Format::Bmp => "bmp",
            Format::Tiff => "tiff",
            Format::Ico => "ico",
            Format::Avif => "avif",
            Format::Heic => "heic",
            Format::Mp4 => "mp4",
            Format::Mkv => "mkv",
            Format::Webm => "webm",
            Format::Mov => "mov",
            Format::Avi => "avi",
            Format::M4v => "m4v",
            Format::Wmv => "wmv",
            Format::Flv => "flv",
            Format::Mp3 => "mp3",
            Format::Wav => "wav",
            Format::Flac => "flac",
            Format::Ogg => "ogg",
            Format::Opus => "opus",
            Format::M4a => "m4a",
            Format::Aac => "aac",
            Format::Txt => "txt",
            Format::Md => "md",
            Format::Html => "html",
            Format::Json => "json",
            Format::Csv => "csv",
            Format::Yaml => "yaml",
            Format::Rtf => "rtf",
            Format::Docx => "docx",
            Format::Doc => "doc",
            Format::Odt => "odt",
            Format::Epub => "epub",
            Format::Xlsx => "xlsx",
            Format::Xls => "xls",
            Format::Ods => "ods",
            Format::Pptx => "pptx",
            Format::Ppt => "ppt",
            Format::Odp => "odp",
            Format::Pdf => "pdf",
        }
    }
}

/// The format named by an already lower-cased extension, with its aliases.
pub open spec fn format_of_ext(e: Seq<char>) -> Option<Format> {
    if e == "png"@ { Some(Format::Png) }
    else if e == "jpg"@ || e == "jpeg"@ || e == "jpe"@ { Some(Format::Jpg) }
    else if e == "webp"@ { Some(Format::Webp) }
    else if e == "gif"@ { Some(Format::Gif) }
    else if e == "bmp"@ || e == "dib"@ { Some(Format::Bmp) }
    else if e == "tif"@ || e == "tiff"@ { Some(Format::Tiff) }
    else if e == "ico"@ { Some(Format::Ico) }
    else if e == "avif"@ { Some(Format::Avif) }
    else if e == "heic"@ || e == "heif"@ { Some(Format::Heic) }
    else if e == "mp4"@ { Some(Format::Mp4) }
    else if e == "mkv"@ { Some(Format::Mkv) }
    else if e == "webm"@ { Some(Format::Webm) }
    else if e == "mov"@ { Some(Format::Mov) }
    else if e == "avi"@ { Some(Format::Avi) }
    else if e == "m4v"@ { Some(Format::M4v) }
    else if e == "wmv"@ { Some(Format::Wmv) }
    else if e == "flv"@ { Some(Format::Flv) }
    else if e == "mp3"@ { Some(Format::Mp3) }
    else if e == "wav"@ { Some(Format::Wav) }
    else if e == "flac"@ { Some(Format::Flac) }
    else if e == "ogg"@ || e == "oga"@ { Some(Format::Ogg) }
    else if e == "opus"@ { Some(Format::Opus) }
    else if e == "m4a"@ || e == "m4b"@ { Some(Format::M4a) }
    else if e == "aac"@ { Some(Format::Aac) }
    else if e == "txt"@ || e == "log"@ || e == "text"@ { Some(Format::Txt) }
    else if e == "md"@ || e == "markdown"@ { Some(Format::Md) }
    else if e == "html"@ || e == "htm"@ || e == "xhtml"@ { Some(Format::Html) }
    else if e == "json"@ { Some(Format::Json) }
    else if e == "csv"@ || e == "tsv"@ { Some(Format::Csv) }
    else if e == "yaml"@ || e == "yml"@ { Some(Format::Yaml) }
    else if e == "rtf"@ { Some(Format::Rtf) }
    else if e == "docx"@ { Some(Format::Docx) }
    else if e == "doc"@ { Some(Format::Doc) }
    else if e == "odt"@ { Some(Format::Odt) }
    else if e == "epub"@ { Some(Format::Epub) }
    else if e == "xlsx"@ || e == "xlsm"@ { Some(Format::Xlsx) }
    else if e == "xls"@ || e == "et"@ { Some(Format::Xls) }
    else if e == "ods"@ { Some(Format::Ods) }
    else if e == "pptx"@ { Some(Format::Pptx) }
    else if e == "ppt"@ || e == "dps"@ { Some(Format::Ppt) }
    else if e == "odp"@ { Some(Format::Odp) }
    else if e == "pdf"@ { Some(Format::Pdf) }
    else { None }
}

impl Format {
    /// Recognizes an extension case-insensitively, aliases included.
    pub fn from_extension(ext: &str) -> (r: Option<Format>)
        ensures
            r == format_of_ext(lower_seq(ext@)),
    {
        let low = ascii_lowercase(ext);
        let e = low.as_str();
        if str_eq(e, "png") { Some(Format::Png) }
        else if str_eq(e, "jpg") || str_eq(e, "jpeg") || str_eq(e, "jpe") { Some(Format::Jpg) }
        else if str_eq(e, "webp") { Some(Format::Webp) }
        else if str_eq(e, "gif") { Some(Format::Gif) }
        else if str_eq(e, "bmp") || str_eq(e, "dib") { Some(Format::Bmp) }
        else if str_eq(e, "tif") || str_eq(e, "tiff") { Some(Format::Tiff) }
        else if str_eq(e, "ico") { Some(Format::Ico) }
        else if str_eq(e, "avif") { Some(Format::Avif) }
        else if str_eq(e, "heic") || str_eq(e, "heif") { Some(Format::Heic) }
        else if str_eq(e, "mp4") { Some(Format::Mp4) }
        else if str_eq(e, "mkv") { Some(Format::Mkv) }
        else if str_eq(e, "webm") { Some(Format::Webm) }
        else if str_eq(e, "mov") { Some(Format::Mov) }
        else if str_eq(e, "avi") { Some(Format::Avi) }
        else if str_eq(e, "m4v") { Some(Format::M4v) }
        else if str_eq(e, "wmv") { Some(Format::Wmv) }
        else if str_eq(e, "flv") { Some(Format::Flv) }
        else if str_eq(e, "mp3") { Some(Format::Mp3) }
        else if str_eq(e, "wav") { Some(Format::Wav) }
        else if str_eq(e, "flac") { Some(Format::Flac) }
        else if str_eq(e, "ogg") || str_eq(e, "oga") { Some(Format::Ogg) }
        else if str_eq(e, "opus") { Some(Format::Opus) }
        else if str_eq(e, "m4a") || str_eq(e, "m4b") { Some(Format::M4a) }
        else if str_eq(e, "aac") { Some(Format::Aac) }
        else if str_eq(e, "txt") || str_eq(e, "log") || str_eq(e, "text") { Some(Format::Txt) }
        else if str_eq(e, "md") || str_eq(e, "markdown") { Some(Format::Md) }
        else if str_eq(e, "html") || str_eq(e, "htm") || str_eq(e, "xhtml") { Some(Format::Html) }
        else if str_eq(e, "json") { Some(Format::Json) }
        else if str_eq(e, "csv") || str_eq(e, "tsv") { Some(Format::Csv) }
        else if str_eq(e, "yaml") || str_eq(e, "yml") { Some(Format::Yaml) }
        else if str_eq(e, "rtf") { Some(Format::Rtf) }
        else if str_eq(e, "docx") { Some(Format::Docx) }
        else if str_eq(e, "doc") { Some(Format::Doc) }
        else if str_eq(e, "odt") { Some(Format::Odt) }
        else if str_eq(e, "epub") { Some(Format::Epub) }
        else if str_eq(e, "xlsx") || str_eq(e, "xlsm") { Some(Format::Xlsx) }
        else if str_eq(e, "xls") || str_eq(e, "et") { Some(Format::Xls) }
        else if str_eq(e, "ods") { Some(Format::Ods) }
        else if str_eq(e, "pptx") { Some(Format::Pptx) }
        else if str_eq(e, "ppt") || str_eq(e, "dps") { Some(Format::Ppt) }
        else if str_eq(e, "odp") { Some(Format::Odp) }
        else if str_eq(e, "pdf") { Some(Format::Pdf) }
        else { None }
    }
}

} // verus!

verus! {

/// Every canonical extension reads back as its own format.
pub proof fn lemma_extension_roundtrip(f: Format)
    ensures
        lower_seq(f.ext()) == f.ext(),
        format_of_ext(f.ext()) == Some(f),
        f.ext().len() > 0,
        forall|i: int| 0 <= i < f.ext().len() ==> ('a' <= #[trigger] f.ext()[i] <= 'z' || '0' <= f.ext()[i] <= '9'),
{
    reveal_strlit("png"); reveal_strlit("jpg"); reveal_strlit("jpeg"); reveal_strlit("jpe");
    reveal_strlit("webp"); reveal_strlit("gif"); reveal_strlit("bmp"); reveal_strlit("dib");
    reveal_strlit("tif"); reveal_strlit("tiff"); reveal_strlit("ico"); reveal_strlit("avif");
    reveal_strlit("heic"); reveal_strlit("heif"); reveal_strlit("mp4"); reveal_strlit("mkv");
    reveal_strlit("webm"); reveal_strlit("mov"); reveal_strlit("avi"); reveal_strlit("m4v");
    reveal_strlit("wmv"); reveal_strlit("flv"); reveal_strlit("mp3"); reveal_strlit("wav");
    reveal_strlit("flac"); reveal_strlit("ogg"); reveal_strlit("oga"); reveal_strlit("opus");
    reveal_strlit("m4a"); reveal_strlit("m4b"); reveal_strlit("aac"); reveal_strlit("txt");
    reveal_strlit("log"); reveal_strlit("text"); reveal_strlit("md"); reveal_strlit("markdown");
    reveal_strlit("html"); reveal_strlit("htm"); reveal_strlit("xhtml"); reveal_strlit("json");
    reveal_strlit("csv"); reveal_strlit("tsv"); reveal_strlit("yaml"); reveal_strlit("yml");
    reveal_strlit("rtf"); reveal_strlit("docx"); reveal_strlit("doc"); reveal_strlit("odt");
    reveal_strlit("epub"); reveal_strlit("xlsx"); reveal_strlit("xlsm"); reveal_strlit("xls");
    reveal_strlit("et"); reveal_strlit("ods"); reveal_strlit("pptx"); reveal_strlit("ppt");
    reveal_strlit("dps"); reveal_strlit("odp"); reveal_strlit("pdf");
    assert(lower_seq(f.ext()) =~= f.ext());
    match f {
        Format::Png => { assert(Format::Png.ext() =~= seq!['p', 'n', 'g']); }
        Format::Jpg => { assert(Format::Jpg.ext() =~= seq!['j', 'p', 'g']); }
        Format::Webp => { assert(Format::Webp.ext() =~= seq!['w', 'e', 'b', 'p']); }
        Format::Gif => { assert(Format::Gif.ext() =~= seq!['g', 'i', 'f']); }
        Format::Bmp => { assert(Format::Bmp.ext() =~= seq!['b', 'm', 'p']); }
        Format::Tiff => { assert(Format::Tiff.ext() =~= seq!['t', 'i', 'f', 'f']); }
        Format::Ico => { assert(Format::Ico.ext() =~= seq!['i', 'c', 'o']); }
        Format::Avif => { assert(Format::Avif.ext() =~= seq!['a', 'v', 'i', 'f']); }
        Format::Heic => { assert(Format::Heic.ext() =~= seq!['h', 'e', 'i', 'c']); }
        Format::Mp4 => { assert(Format::Mp4.ext() =~= seq!['m', 'p', '4']); }
        Format::Mkv => { assert(Format::Mkv.ext() =~= seq!['m', 'k', 'v']); }
        Format::Webm => { assert(Format::Webm.ext() =~= seq!['w', 'e', 'b', 'm']); }
        Format::Mov => { assert(Format::Mov.ext() =~= seq!['m', 'o', 'v']); }
        Format::Avi => { assert(Format::Avi.ext() =~= seq!['a', 'v', 'i']); }
        Format::M4v => { assert(Format::M4v.ext() =~= seq!['m', '4', 'v']); }
        Format::Wmv => { assert(Format::Wmv.ext() =~= seq!['w', 'm', 'v']); }
        Format::Flv => { assert(Format::Flv.ext() =~= seq!['f', 'l', 'v']); }
        Format::Mp3 => { assert(Format::Mp3.ext() =~= seq!['m', 'p', '3']); }
        Format::Wav => { assert(Format::Wav.ext() =~= seq!['w', 'a', 'v']); }
        Format::Flac => { assert(Format::Flac.ext() =~= seq!['f', 'l', 'a', 'c']); }
        Format::Ogg => { assert(Format::Ogg.ext() =~= seq!['o', 'g', 'g']); }
        Format::Opus => { assert(Format::Opus.ext() =~= seq!['o', 'p', 'u', 's']); }
        Format::M4a => { assert(Format::M4a.ext() =~= seq!['m', '4', 'a']); }
        Format::Aac => { assert(Format::Aac.ext() =~= seq!['a', 'a', 'c']); }
        Format::Txt => { assert(Format::Txt.ext() =~= seq!['t', 'x', 't']); }
        Format::Md => { assert(Format::Md.ext() =~= seq!['m', 'd']); }
        Format::Html => { assert(Format::Html.ext() =~= seq!['h', 't', 'm', 'l']); }
        Format::Json => { assert(Format::Json.ext() =~= seq!['j', 's', 'o', 'n']); }
        Format::Csv => { assert(Format::Csv.ext() =~= seq!['c', 's', 'v']); }
        Format::Yaml => { assert(Format::Yaml.ext() =~= seq!['y', 'a', 'm', 'l']); }
        Format::Rtf => { assert(Format::Rtf.ext() =~= seq!['r', 't', 'f']); }
        Format::Docx => { assert(Format::Docx.ext() =~= seq!['d', 'o', 'c', 'x']); }
        Format::Doc => { assert(Format::Doc.ext() =~= seq!['d', 'o', 'c']); }
        Format::Odt => { assert(Format::Odt.ext() =~= seq!['o', 'd', 't']); }
        Format::Epub => { assert(Format::Epub.ext() =~= seq!['e', 'p', 'u', 'b']); }
        Format::Xlsx => { assert(Format::Xlsx.ext() =~= seq!['x', 'l', 's', 'x']); }
        Format::Xls => { assert(Format::Xls.ext() =~= seq!['x', 'l', 's']); }
        Format::Ods => { assert(Format::Ods.ext() =~= seq!['o', 'd', 's']); }
        Format::Pptx => { assert(Format::Pptx.ext() =~= seq!['p', 'p', 't', 'x']); }
        Format::Ppt => { assert(Format::Ppt.ext() =~= seq!['p', 'p', 't']); }
        Format::Odp => { assert(Format::Odp.ext() =~= seq!['o', 'd', 'p']); }
        Format::Pdf => { assert(Format::Pdf.ext() =~= seq!['p', 'd', 'f']); }
    }
}

} // verus!

verus! {

impl Format {
    /// Which family a format belongs to.
    pub open spec fn cat(self) -> Category {
        match self {
            Format::Png | Format::Jpg | Format::Webp | Format::Gif | Format::Bmp
            | Format::Tiff | Format::Ico | Format::Avif | Format::Heic => Category::Image,
            Format::Mp4 | Format::Mkv | Format::Webm | Format::Mov | Format::Avi
            | Format::M4v | Format::Wmv | Format::Flv => Category::Video,
            Format::Mp3 | Format::Wav | Format::Flac | Format::Ogg | Format::Opus
            | Format::M4a | Format::Aac => Category::Audio,
            Format::Txt | Format::Md | Format::Html | Format::Json | Format::Yaml
            | Format::Csv => Category::Text,
            Format::Rtf | Format::Docx | Format::Doc | Format::Odt | Format::Epub => Category::Document,
            Format::Xlsx | Format::Xls | Format::Ods => Category::Sheet,
            Format::Pptx | Format::Ppt | Format::Odp => Category::Slide,
            Format::Pdf => Category::Pdf,
        }
    }

    pub fn category(self) -> (r: Category)
        ensures
            r == self.cat(),
    {
        match self {
            Format::Png | Format::Jpg | Format::Webp | Format::Bmp | Format::Tiff
            | Format::Ico | Format::Avif | Format::Heic => Category::Image,
            // Gif is classified as an image but the router also allows gif as a
            // video source/target through ffmpeg.
            Format::Gif => Category::Image,
            Format::Mp4 | Format::Mkv | Format::Webm | Format::Mov | Format::Avi
            | Format::M4v | Format::Wmv | Format::Flv => Category::Video,
            Format::Mp3 | Format::Wav | Format::Flac | Format::Ogg | Format::Opus
            | Format::M4a | Format::Aac => Category::Audio,
            Format::Txt | Format::Md | Format::Html | Format::Json | Format::Yaml => Category::Text,
            Format::Csv => Category::Text,
            Format::Rtf | Format::Docx | Format::Doc | Format::Odt | Format::Epub => Category::Document,
            Format::Xlsx | Format::Xls | Format::Ods => Category::Sheet,
            Format::Pptx | Format::Ppt | Format::Odp => Category::Slide,
            Format::Pdf => Category::Pdf,
        }
    }

    /// Formats the pure-Rust image codecs can decode (no sidecar needed).
    pub open spec fn native_image(self) -> bool {
        self == Format::Png || self == Format::Jpg || self == Format::Webp || self == Format::Gif
            || self == Format::Bmp || self == Format::Tiff || self == Format::Ico
    }

    /// Formats readable by the native image codecs (no sidecar needed).
    pub fn is_native_image(self) -> (r: bool)
        ensures
            r == self.native_image(),
    {
        match self {
            Format::Png | Format::Jpg | Format::Webp | Format::Gif | Format::Bmp
            | Format::Tiff | Format::Ico => true,
            _ => false,
        }
    }

    /// Formats the native image codecs can ENCODE with meaningful quality.
    /// (webp/avif encoding is routed through ffmpeg for real quality control.)
    pub fn is_native_encode(self) -> (r: bool)
        ensures
            r == (self.native_image() && self != Format::Webp),
    {
        match self {
            Format::Png | Format::Jpg | Format::Gif | Format::Bmp | Format::Tiff
            | Format::Ico => true,
            _ => false,
        }
    }

    pub fn is_video(self) -> (r: bool)
        ensures
            r == (self.cat() == Category::Video),
    {
        match self {
            Format::Mp4 | Format::Mkv | Format::Webm | Format::Mov | Format::Avi
            | Format::M4v | Format::Wmv | Format::Flv => true,
            _ => false,
        }
    }

    pub fn is_audio(self) -> (r: bool)
        ensures
            r == (self.cat() == Category::Audio),
    {
        match self {
            Format::Mp3 | Format::Wav | Format::Flac | Format::Ogg | Format::Opus
            | Format::M4a | Format::Aac => true,
            _ => false,
        }
    }

    pub fn is_office_doc(self) -> (r: bool)
        ensures
            r == (self.cat() == Category::Document),
    {
        match self {
            Format::Rtf | Format::Docx | Format::Doc | Format::Odt | Format::Epub => true,
            _ => false,
        }
    }

    /// The text shown for a format: its canonical extension.
    pub fn to_string(self) -> (r: String)
        ensures
            r@ == self.ext(),
    {
        String::from_str(self.extension())
    }
}

/// The categories in display order.
pub open spec fn categories() -> Seq<Category> {
    seq![
        Category::Image,
        Category::Video,
        Category::Audio,
        Category::Text,
        Category::Document,
        Category::Sheet,
        Category::Slide,
        Category::Pdf,
    ]
}

impl Category {
    pub fn all() -> (r: [Category; 8])
        ensures
            r@ == categories(),
    {
        let r = [
            Category::Image,
            Category::Video,
            Category::Audio,
            Category::Text,
            Category::Document,
            Category::Sheet,
            Category::Slide,
            Category::Pdf,
        ];
        assert(r@ =~= categories());
        r
    }
}

/// The formats of one category, in display order.
pub open spec fn formats_of(cat: Category) -> Seq<Format> {
    match cat {
        Category::Image => seq![Format::Png, Format::Jpg, Format::Webp, Format::Avif, Format::Gif,
            Format::Bmp, Format::Tiff, Format::Ico, Format::Heic],
        Category::Video => seq![Format::Mp4, Format::Mkv, Format::Webm, Format::Mov, Format::Avi,
            Format::M4v, Format::Wmv, Format::Flv],
        Category::Audio => seq![Format::Mp3, Format::Wav, Format::Flac, Format::Ogg, Format::Opus,
            Format::M4a, Format::Aac],
        Category::Text => seq![Format::Txt, Format::Md, Format::Html, Format::Csv, Format::Json,
            Format::Yaml],
        Category::Document => seq![Format::Docx, Format::Doc, Format::Odt, Format::Rtf, Format::Epub],
        Category::Sheet => seq![Format::Xlsx, Format::Xls, Format::Ods],
        Category::Slide => seq![Format::Pptx, Format::Ppt, Format::Odp],
        Category::Pdf => seq![Format::Pdf],
    }
}

pub fn formats_in_category(cat: Category) -> (r: Vec<Format>)
    ensures
        r@ == formats_of(cat),
{
    let r = match cat {
        Category::Image => vec![Format::Png, Format::Jpg, Format::Webp, Format::Avif, Format::Gif,
            Format::Bmp, Format::Tiff, Format::Ico, Format::Heic],
        Category::Video => vec![Format::Mp4, Format::Mkv, Format::Webm, Format::Mov, Format::Avi,
            Format::M4v, Format::Wmv, Format::Flv],
        Category::Audio => vec![Format::Mp3, Format::Wav, Format::Flac, Format::Ogg, Format::Opus,
            Format::M4a, Format::Aac],
        Category::Text => vec![Format::Txt, Format::Md, Format::Html, Format::Csv, Format::Json,
            Format::Yaml],
        Category::Document => vec![Format::Docx, Format::Doc, Format::Odt, Format::Rtf, Format::Epub],
        Category::Sheet => vec![Format::Xlsx, Format::Xls, Format::Ods],
        Category::Slide => vec![Format::Pptx, Format::Ppt, Format::Odp],
        Category::Pdf => vec![Format::Pdf],
    };
    assert(r@ =~= formats_of(cat));
    r
}

/// The formats of the first `k` categories, category by category.
pub open spec fn formats_upto(k: int) -> Seq<Format>
    decreases k,
{
    if k <= 0 {
        Seq::empty()
    } else {
        formats_upto(k - 1) + formats_of(categories()[k - 1])
    }
}

/// Every format, category by category, in display order.
pub open spec fn all_formats() -> Seq<Format> {
    formats_upto(8)
}

/// Every format, deterministic order (CLI `formats` listing).
pub fn all_in_order() -> (r: Vec<Format>)
    ensures
        r@ == all_formats(),
{
    let cats = Category::all();
    let mut out: Vec<Format> = Vec::new();
    let mut i: usize = 0;
    while i < 8
        invariant
            i <= 8,
            cats@ == categories(),
            out@ == formats_upto(i as int),
        decreases 8 - i,
    {
        let mut fs = formats_in_category(cats[i]);
        out.append(&mut fs);
        i = i + 1;
    }
    out
}

/// `all_formats` written out.
pub proof fn lemma_all_formats_listing()
    ensures
        all_formats() == seq![
            Format::Png, Format::Jpg, Format::Webp, Format::Avif, Format::Gif, Format::Bmp,
            Format::Tiff, Format::Ico, Format::Heic,
            Format::Mp4, Format::Mkv, Format::Webm, Format::Mov, Format::Avi, Format::M4v,
            Format::Wmv, Format::Flv,
            Format::Mp3, Format::Wav, Format::Flac, Format::Ogg, Format::Opus, Format::M4a,
            Format::Aac,
            Format::Txt, Format::Md, Format::Html, Format::Csv, Format::Json, Format::Yaml,
            Format::Docx, Format::Doc, Format::Odt, Format::Rtf, Format::Epub,
            Format::Xlsx, Format::Xls, Format::Ods,
            Format::Pptx, Format::Ppt, Format::Odp,
            Format::Pdf,
        ],
{
    reveal_with_fuel(formats_upto, 9);
    assert(all_formats() =~= seq![
            Format::Png, Format::Jpg, Format::Webp, Format::Avif, Format::Gif, Format::Bmp,
            Format::Tiff, Format::Ico, Format::Heic,
            Format::Mp4, Format::Mkv, Format::Webm, Format::Mov, Format::Avi, Format::M4v,
            Format::Wmv, Format::Flv,
            Format::Mp3, Format::Wav, Format::Flac, Format::Ogg, Format::Opus, Format::M4a,
            Format::Aac,
            Format::Txt, Format::Md, Format::Html, Format::Csv, Format::Json, Format::Yaml,
            Format::Docx, Format::Doc, Format::Odt, Format::Rtf, Format::Epub,
            Format::Xlsx, Format::Xls, Format::Ods,
            Format::Pptx, Format::Ppt, Format::Odp,
            Format::Pdf,
        ]);
}

} // verus!

verus! {

/// A category lists exactly the formats that belong to it.
pub proof fn lemma_category_listing(c: Category, f: Format)
    ensures
        formats_of(c).contains(f) <==> f.cat() == c,
{
    assert forall|i: int| 0 <= i < formats_of(c).len() implies #[trigger] formats_of(c)[i].cat() == c by {
        match c {
            Category::Image => {}
            Category::Video => {}
            Category::Audio => {}
            Category::Text => {}
            Category::Document => {}
            Category::Sheet => {}
            Category::Slide => {}
            Category::Pdf => {}
        }
    }
    match f {
        Format::Png => { assert(formats_of(Category::Image)[0] == Format::Png); }
        Format::Jpg => { assert(formats_of(Category::Image)[1] == Format::Jpg); }
        Format::Webp => { assert(formats_of(Category::Image)[2] == Format::Webp); }
        Format::Avif => { assert(formats_of(Category::Image)[3] == Format::Avif); }
        Format::Gif => { assert(formats_of(Category::Image)[4] == Format::Gif); }
        Format::Bmp => { assert(formats_of(Category::Image)[5] == Format::Bmp); }
        Format::Tiff => { assert(formats_of(Category::Image)[6] == Format::Tiff); }
        Format::Ico => { assert(formats_of(Category::Image)[7] == Format::Ico); }
        Format::Heic => { assert(formats_of(Category::Image)[8] == Format::Heic); }
        Format::Mp4 => { assert(formats_of(Category::Video)[0] == Format::Mp4); }
        Format::Mkv => { assert(formats_of(Category::Video)[1] == Format::Mkv); }
        Format::Webm => { assert(formats_of(Category::Video)[2] == Format::Webm); }
        Format::Mov => { assert(formats_of(Category::Video)[3] == Format::Mov); }
        Format::Avi => { assert(formats_of(Category::Video)[4] == Format::Avi); }
        Format::M4v => { assert(formats_of(Category::Video)[5] == Format::M4v); }
        Format::Wmv => { assert(formats_of(Category::Video)[6] == Format::Wmv); }
        Format::Flv => { assert(formats_of(Category::Video)[7] == Format::Flv); }
        Format::Mp3 => { assert(formats_of(Category::Audio)[0] == Format::Mp3); }
        Format::Wav => { assert(formats_of(Category::Audio)[1] == Format::Wav); }
        Format::Flac => { assert(formats_of(Category::Audio)[2] == Format::Flac); }
        Format::Ogg => { assert(formats_of(Category::Audio)[3] == Format::Ogg); }
        Format::Opus => { assert(formats_of(Category::Audio)[4] == Format::Opus); }
        Format::M4a => { assert(formats_of(Category::Audio)[5] == Format::M4a); }
        Format::Aac => { assert(formats_of(Category::Audio)[6] == Format::Aac); }
        Format::Txt => { assert(formats_of(Category::Text)[0] == Format::Txt); }
        Format::Md => { assert(formats_of(Category::Text)[1] == Format::Md); }
        Format::Html => { assert(formats_of(Category::Text)[2] == Format::Html); }
        Format::Csv => { assert(formats_of(Category::Text)[3] == Format::Csv); }
        Format::Json => { assert(formats_of(Category::Text)[4] == Format::Json); }
        Format::Yaml => { assert(formats_of(Category::Text)[5] == Format::Yaml); }
        Format::Docx => { assert(formats_of(Category::Document)[0] == Format::Docx); }
        Format::Doc => { assert(formats_of(Category::Document)[1] == Format::Doc); }
        Format::Odt => { assert(formats_of(Category::Document)[2] == Format::Odt); }
        Format::Rtf => { assert(formats_of(Category::Document)[3] == Format::Rtf); }
        Format::Epub => { assert(formats_of(Category::Document)[4] == Format::Epub); }
        Format::Xlsx => { assert(formats_of(Category::Sheet)[0] == Format::Xlsx); }
        Format::Xls => { assert(formats_of(Category::Sheet)[1] == Format::Xls); }
        Format::Ods => { assert(formats_of(Category::Sheet)[2] == Format::Ods); }
        Format::Pptx => { assert(formats_of(Category::Slide)[0] == Format::Pptx); }
        Format::Ppt => { assert(formats_of(Category::Slide)[1] == Format::Ppt); }
        Format::Odp => { assert(formats_of(Category::Slide)[2] == Format::Odp); }
        Format::Pdf => { assert(formats_of(Category::Pdf)[0] == Format::Pdf); }
    }
}

/// The full listing names every format exactly once.
pub proof fn lemma_all_formats_complete(f: Format)
    ensures
        all_formats().contains(f),
        all_formats().no_duplicates(),
        all_formats().len() == 42,
{
    lemma_all_formats_listing();
    match f {
        Format::Png => { assert(all_formats()[0] == Format::Png); }
        Format::Jpg => { assert(all_formats()[1] == Format::Jpg); }
        Format::Webp => { assert(all_formats()[2] == Format::Webp); }
        Format::Avif => { assert(all_formats()[3] == Format::Avif); }
        Format::Gif => { assert(all_formats()[4] == Format::Gif); }
        Format::Bmp => { assert(all_formats()[5] == Format::Bmp); }
        Format::Tiff => { assert(all_formats()[6] == Format::Tiff); }
        Format::Ico => { assert(all_formats()[7] == Format::Ico); }
        Format::Heic => { assert(all_formats()[8] == Format::Heic); }
        Format::Mp4 => { assert(all_formats()[9] == Format::Mp4); }
        Format::Mkv => { assert(all_formats()[10] == Format::Mkv); }
        Format::Webm => { assert(all_formats()[11] == Format::Webm); }
        Format::Mov => { assert(all_formats()[12] == Format::Mov); }
        Format::Avi => { assert(all_formats()[13] == Format::Avi); }
        Format::M4v => { assert(all_formats()[14] == Format::M4v); }
        Format::Wmv => { assert(all_formats()[15] == Format::Wmv); }
        Format::Flv => { assert(all_formats()[16] == Format::Flv); }
        Format::Mp3 => { assert(all_formats()[17] == Format::Mp3); }
        Format::Wav => { assert(all_formats()[18] == Format::Wav); }
        Format::Flac => { assert(all_formats()[19] == Format::Flac); }
        Format::Ogg => { assert(all_formats()[20] == Format::Ogg); }
        Format::Opus => { assert(all_formats()[21] == Format::Opus); }
        Format::M4a => { assert(all_formats()[22] == Format::M4a); }
        Format::Aac => { assert(all_formats()[23] == Format::Aac); }
        Format::Txt => { assert(all_formats()[24] == Format::Txt); }
        Format::Md => { assert(all_formats()[25] == Format::Md); }
        Format::Html => { assert(all_formats()[26] == Format::Html); }
        Format::Csv => { assert(all_formats()[27] == Format::Csv); }
        Format::Json => { assert(all_formats()[28] == Format::Json); }
        Format::Yaml => { assert(all_formats()[29] == Format::Yaml); }
        Format::Docx => { assert(all_formats()[30] == Format::Docx); }
        Format::Doc => { assert(all_formats()[31] == Format::Doc); }
        Format::Odt => { assert(all_formats()[32] == Format::Odt); }
        Format::Rtf => { assert(all_formats()[33] == Format::Rtf); }
        Format::Epub => { assert(all_formats()[34] == Format::Epub); }
        Format::Xlsx => { assert(all_formats()[35] == Format::Xlsx); }
        Format::Xls => { assert(all_formats()[36] == Format::Xls); }
        Format::Ods => { assert(all_formats()[37] == Format::Ods); }
        Format::Pptx => { assert(all_formats()[38] == Format::Pptx); }
        Format::Ppt => { assert(all_formats()[39] == Format::Ppt); }
        Format::Odp => { assert(all_formats()[40] == Format::Odp); }
        Format::Pdf => { assert(all_formats()[41] == Format::Pdf); }
    }
}

} // verus!

verus! {

/// The format a user wrote: surrounding whitespace and leading dots are
/// ignored, case does not matter.
pub open spec fn format_named(s: Seq<char>) -> Option<Format> {
    format_of_ext(lower_seq(strip_leading(trim_seq(s), '.')))
}

impl Format {
    /// Reads a format name such as `" .PNG "`; unknown names are refused
    /// with `unknown format: <input>`.
    pub fn parse(s: &str) -> (r: Result<Format, String>)
        ensures
            format_named(s@) is Some ==> r == Ok::<Format, String>(format_named(s@)->0),
            format_named(s@) is None ==> r is Err && r->Err_0@ == "unknown format: "@ + s@,
    {
        let t = trim(s);
        let u = trim_start_char(t, '.');
        match Format::from_extension(u) {
            Some(f) => Ok(f),
            None => Err(concat("unknown format: ", s)),
        }
    }
}

impl std::str::FromStr for Format {
    type Err = String;

    /// Reads a format name as [`Format::parse`] does.
    fn from_str(s: &str) -> (r: Result<Format, String>)
        ensures
            format_named(s@) is Some ==> r == Ok::<Format, String>(format_named(s@)->0),
            format_named(s@) is None ==> r is Err && r->Err_0@ == "unknown format: "@ + s@,
    {
        Format::parse(s)
    }
}

} // verus!

verus! {

/// Reading a format back from its display text gives the same format.
pub proof fn lemma_display_parse_roundtrip(f: Format)
    ensures
        format_named(f.ext()) == Some(f),
{
    lemma_extension_roundtrip(f);
    let e = f.ext();
    let ws = crate::text::ws_pred();
    assert(!ws(e[0]));
    assert(!ws(e.last()));
    assert(crate::text::lead(e, ws) == 0);
    assert(e.skip(0) =~= e);
    assert(crate::text::trail(e, ws) == 0);
    assert(e.take(e.len() as int) =~= e);
    assert(trim_seq(e) == e);
    assert(!crate::text::is_char('.')(e[0]));
    assert(crate::text::lead(e, crate::text::is_char('.')) == 0);
    assert(strip_leading(e, '.') == e);
}

/// Formats are recognized whatever the case of their extension.
pub proof fn lemma_extension_case_insensitive(a: Seq<char>, b: Seq<char>)
    requires
        crate::text::eq_ignore_case(a, b),
    ensures
        format_of_ext(lower_seq(a)) == format_of_ext(lower_seq(b)),
{
}

} // verus!
