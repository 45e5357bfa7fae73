//! Audio/video argument building for the bundled FFmpeg sidecar: per-target
//! codec maps, quality/preset knobs and the two-pass palette GIF.

use vstd::prelude::*;

use crate::error::{Error, Result};
use crate::format::{format_of_ext, Category, Format};
use crate::paths::{ext_of, path_extension, path_with_extension, with_ext};
use crate::text::{
    concat, dec, extend_args, lower_seq, push_arg, push_dec, push_owned, str_eq, string_of, join_with,
};

verus! {

#[derive(Debug, Clone, Default)]
pub struct AvOptions {
    /// 1..=100, None = engine default
    pub quality: Option<u8>,
    /// "wechat" | "web" | "archive"
    pub preset: Option<String>,
}

pub open spec fn clamp(x: int, lo: int, hi: int) -> int {
    if x < lo {
        lo
    } else if x > hi {
        hi
    } else {
        x
    }
}

/// The x264 constant rate factor for a quality: `51 - round(q * 0.34)`,
/// kept within 14..=51 (rounding halves away from zero).
pub open spec fn crf_value(q: u8) -> int {
    clamp(51 - (q as int * 34 + 50) / 100, 14, 51)
}

pub open spec fn crf_text(quality: Option<u8>) -> Seq<char> {
    match quality {
        Some(q) => dec(crf_value(q) as nat),
        None => "23"@,
    }
}

/// The scale filter a preset asks for.
pub open spec fn preset_scale(preset: Option<Seq<char>>) -> Seq<Seq<char>> {
    match preset {
        Some(p) => if p == "wechat"@ {
            seq!["-vf"@, "scale='min(1280,iw)':-2"@]
        } else if p == "archive"@ {
            seq!["-vf"@, "scale='min(1920,iw)':-2"@]
        } else {
            seq![]
        },
        None => seq![],
    }
}

/// The encoder arguments for a video target.
pub open spec fn video_args_spec(target: Format, quality: Option<u8>, preset: Option<Seq<char>>) -> Seq<Seq<char>> {
    let crf = crf_text(quality);
    match target {
        Format::Mp4 | Format::Mov | Format::M4v => seq![
            "-c:v"@, "libx264"@, "-preset"@, "medium"@, "-crf"@, crf, "-pix_fmt"@, "yuv420p"@,
            "-c:a"@, "aac"@, "-b:a"@, "192k"@, "-movflags"@, "+faststart"@,
        ] + preset_scale(preset),
        Format::Mkv => seq![
            "-c:v"@, "libx264"@, "-preset"@, "medium"@, "-crf"@, crf, "-pix_fmt"@, "yuv420p"@,
            "-c:a"@, "aac"@, "-b:a"@, "192k"@,
        ],
        Format::Webm => seq![
            "-c:v"@, "libvpx-vp9"@, "-crf"@, "34"@, "-b:v"@, "0"@, "-row-mt"@, "1"@,
            "-c:a"@, "libopus"@, "-b:a"@, "128k"@,
        ],
        Format::Avi => seq![
            "-c:v"@, "mpeg4"@, "-q:v"@, "5"@, "-c:a"@, "libmp3lame"@, "-b:a"@, "192k"@,
        ],
        Format::Wmv => seq![
            "-c:v"@, "wmv2"@, "-b:v"@, "2500k"@, "-c:a"@, "wmav2"@, "-b:a"@, "192k"@,
        ],
        Format::Flv => seq![
            "-c:v"@, "libx264"@, "-preset"@, "veryfast"@, "-pix_fmt"@, "yuv420p"@,
            "-c:a"@, "aac"@, "-b:a"@, "128k"@,
        ],
        _ => seq![],
    }
}

/// The audio bitrate for a quality: `96 + q` kbit/s within 96..=320.
pub open spec fn bitrate_text(quality: Option<u8>) -> Seq<char> {
    match quality {
        Some(q) => dec(clamp(96 + q as int, 96, 320) as nat) + "k"@,
        None => "192k"@,
    }
}

/// The encoder arguments for an audio target.
pub open spec fn audio_args_spec(target: Format, quality: Option<u8>) -> Seq<Seq<char>> {
    let br = bitrate_text(quality);
    match target {
        Format::Mp3 => seq!["-c:a"@, "libmp3lame"@, "-b:a"@, br],
        Format::Wav => seq!["-c:a"@, "pcm_s16le"@],
        Format::Flac => seq!["-c:a"@, "flac"@],
        Format::Ogg => seq!["-c:a"@, "libvorbis"@, "-b:a"@, br],
        Format::Opus => seq!["-c:a"@, "libopus"@, "-b:a"@, "128k"@],
        Format::M4a | Format::Aac => seq!["-c:a"@, "aac"@, "-b:a"@, br],
        _ => seq![],
    }
}

impl AvOptions {
    pub open spec fn preset_view(&self) -> Option<Seq<char>> {
        self.preset.deep_view()
    }
}

fn crf_arg(quality: Option<u8>) -> (r: String)
    ensures
        r@ == crf_text(quality),
{
    match quality {
        Some(q) => {
            let raw: i64 = 51 - ((q as i64) * 34 + 50) / 100;
            let c: i64 = if raw < 14 { 14 } else if raw > 51 { 51 } else { raw };
            let mut s = String::new();
            push_dec(&mut s, c as u64);
            assert(s@ =~= crf_text(quality));
            s
        },
        None => string_of("23"),
    }
}

fn scale_args(preset: &Option<String>) -> (r: Vec<String>)
    ensures
        r.deep_view() == preset_scale(preset.deep_view()),
{
    let mut v: Vec<String> = Vec::new();
    match preset {
        Some(p) => {
            if str_eq(p.as_str(), "wechat") {
                push_arg(&mut v, "-vf");
                push_arg(&mut v, "scale='min(1280,iw)':-2");
            } else if str_eq(p.as_str(), "archive") {
                push_arg(&mut v, "-vf");
                push_arg(&mut v, "scale='min(1920,iw)':-2");
            }
        },
        None => {},
    }
    assert(v.deep_view() =~= preset_scale(preset.deep_view()));
    v
}

fn args_of(items: &[&str]) -> (r: Vec<String>)
    ensures
        r.deep_view() == Seq::new(items@.len(), |i: int| items@[i]@),
{
    let mut v: Vec<String> = Vec::new();
    let n = items.len();
    let mut i: usize = 0;
    while i < n
        invariant
            n == items@.len(),
            i <= n,
            v.deep_view() == Seq::new(i as nat, |j: int| items@[j]@),
        decreases n - i,
    {
        push_arg(&mut v, items[i]);
        i = i + 1;
        assert(v.deep_view() =~= Seq::new(i as nat, |j: int| items@[j]@));
    }
    v
}

/// The encoder arguments for a video target.
pub fn video_args(target: Format, opts: &AvOptions) -> (r: Vec<String>)
    ensures
        r.deep_view() == video_args_spec(target, opts.quality, opts.preset_view()),
{
    let crf = crf_arg(opts.quality);
    let mut v: Vec<String> = Vec::new();
    match target {
        Format::Mp4 | Format::Mov | Format::M4v => {
            push_arg(&mut v, "-c:v"); push_arg(&mut v, "libx264");
            push_arg(&mut v, "-preset"); push_arg(&mut v, "medium");
            push_arg(&mut v, "-crf"); push_owned(&mut v, crf);
            push_arg(&mut v, "-pix_fmt"); push_arg(&mut v, "yuv420p");
            push_arg(&mut v, "-c:a"); push_arg(&mut v, "aac"); push_arg(&mut v, "-b:a"); push_arg(&mut v, "192k");
            push_arg(&mut v, "-movflags"); push_arg(&mut v, "+faststart");
            let scale = scale_args(&opts.preset);
            extend_args(&mut v, scale);
        },
        Format::Mkv => {
            push_arg(&mut v, "-c:v"); push_arg(&mut v, "libx264");
            push_arg(&mut v, "-preset"); push_arg(&mut v, "medium");
            push_arg(&mut v, "-crf"); push_owned(&mut v, crf);
            push_arg(&mut v, "-pix_fmt"); push_arg(&mut v, "yuv420p");
            push_arg(&mut v, "-c:a"); push_arg(&mut v, "aac"); push_arg(&mut v, "-b:a"); push_arg(&mut v, "192k");
        },
        Format::Webm => {
            v = args_of(&["-c:v", "libvpx-vp9", "-crf", "34", "-b:v", "0", "-row-mt", "1",
                "-c:a", "libopus", "-b:a", "128k"]);
        },
        Format::Avi => {
            v = args_of(&["-c:v", "mpeg4", "-q:v", "5", "-c:a", "libmp3lame", "-b:a", "192k"]);
        },
        Format::Wmv => {
            v = args_of(&["-c:v", "wmv2", "-b:v", "2500k", "-c:a", "wmav2", "-b:a", "192k"]);
        },
        Format::Flv => {
            v = args_of(&["-c:v", "libx264", "-preset", "veryfast", "-pix_fmt", "yuv420p",
                "-c:a", "aac", "-b:a", "128k"]);
        },
        _ => {},
    }
    assert(v.deep_view() =~= video_args_spec(target, opts.quality, opts.preset_view()));
    v
}

fn bitrate_arg(quality: Option<u8>) -> (r: String)
    ensures
        r@ == bitrate_text(quality),
{
    match quality {
        Some(q) => {
            let raw: u32 = 96u32 + q as u32;
            let b: u32 = if raw < 96 { 96 } else if raw > 320 { 320 } else { raw };
            let mut s = String::new();
            push_dec(&mut s, b as u64);
            s.append("k");
            assert(s@ =~= bitrate_text(quality));
            s
        },
        None => string_of("192k"),
    }
}

/// The encoder arguments for an audio target.
pub fn audio_args(target: Format, opts: &AvOptions) -> (r: Vec<String>)
    ensures
        r.deep_view() == audio_args_spec(target, opts.quality),
{
    let br = bitrate_arg(opts.quality);
    let mut v: Vec<String> = Vec::new();
    match target {
        Format::Mp3 => {
            push_arg(&mut v, "-c:a"); push_arg(&mut v, "libmp3lame"); push_arg(&mut v, "-b:a"); push_owned(&mut v, br);
        },
        Format::Wav => {
            push_arg(&mut v, "-c:a"); push_arg(&mut v, "pcm_s16le");
        },
        Format::Flac => {
            push_arg(&mut v, "-c:a"); push_arg(&mut v, "flac");
        },
        Format::Ogg => {
            push_arg(&mut v, "-c:a"); push_arg(&mut v, "libvorbis"); push_arg(&mut v, "-b:a"); push_owned(&mut v, br);
        },
        Format::Opus => {
            push_arg(&mut v, "-c:a"); push_arg(&mut v, "libopus"); push_arg(&mut v, "-b:a"); push_arg(&mut v, "128k");
        },
        Format::M4a | Format::Aac => {
            push_arg(&mut v, "-c:a"); push_arg(&mut v, "aac"); push_arg(&mut v, "-b:a"); push_owned(&mut v, br);
        },
        _ => {},
    }
    assert(v.deep_view() =~= audio_args_spec(target, opts.quality));
    v
}

} // verus!

verus! {

/// The format a path's extension names (a path without one reads as "").
pub open spec fn path_format(p: Seq<char>) -> Option<Format> {
    format_of_ext(lower_seq(match ext_of(p) {
        Some(e) => e,
        None => ""@,
    }))
}

/// The format a path's extension names.
pub fn format_of_path(p: &str) -> (r: Option<Format>)
    ensures
        r == path_format(p@),
{
    match path_extension(p) {
        Some(e) => Format::from_extension(e.as_str()),
        None => Format::from_extension(""),
    }
}

/// Whether a source path names an audio-only file.
pub fn src_is_audio_only(src: &str) -> (r: bool)
    ensures
        r == (path_format(src@) matches Some(f) && f.cat() == Category::Audio),
{
    match format_of_path(src) {
        Some(f) => f.is_audio(),
        None => false,
    }
}

/// How ffmpeg is run for one conversion.
#[derive(Debug)]
pub enum FfmpegJob {
    /// One ffmpeg invocation with these arguments.
    Single(Vec<String>),
    /// A palette pass into `palette`, then a pass that applies it.
    TwoPassGif { palette: String, first: Vec<String>, second: Vec<String> },
}

pub open spec fn ffmpeg_head() -> Seq<Seq<char>> {
    seq!["-y"@, "-hide_banner"@, "-loglevel"@, "error"@]
}

pub open spec fn gif_prep() -> Seq<char> {
    "fps=12,scale=480:-1:flags=lanczos"@
}

/// Targets taken as a single poster frame of a video.
pub open spec fn poster_target(t: Format) -> bool {
    t == Format::Png || t == Format::Jpg || t == Format::Webp || t == Format::Bmp || t == Format::Tiff
}

/// The codec part of a single-pass ffmpeg command, or None when ffmpeg
/// cannot encode the target.
pub open spec fn encode_args_spec(src: Seq<char>, target: Format, quality: Option<u8>, preset: Option<Seq<char>>) -> Option<Seq<Seq<char>>> {
    if target.cat() == Category::Video {
        Some(video_args_spec(target, quality, preset) + if path_format(src) matches Some(f) && f.cat() == Category::Audio {
            seq!["-vn"@]
        } else {
            seq![]
        })
    } else if target.cat() == Category::Audio {
        Some(audio_args_spec(target, quality))
    } else if poster_target(target) {
        Some(seq!["-frames:v"@, "1"@] + if target == Format::Jpg { seq!["-q:v"@, "3"@] } else { seq![] })
    } else {
        None
    }
}

/// The full single-pass ffmpeg command line for a non-gif target.
pub open spec fn single_pass_spec(src: Seq<char>, dst: Seq<char>, target: Format, quality: Option<u8>, preset: Option<Seq<char>>) -> Option<Seq<Seq<char>>> {
    match encode_args_spec(src, target, quality, preset) {
        Some(enc) => {
            let still = path_format(src) matches Some(f) && f.cat() == Category::Image;
            // a single still image becomes a short clip
            let looped = if still && target.cat() == Category::Video {
                seq!["-loop"@, "1"@, "-t"@, "3"@]
            } else {
                seq![]
            };
            Some(ffmpeg_head() + looped + seq!["-i"@, src] + enc + seq!["-progress"@, "pipe:1"@, "-nostats"@, dst])
        },
        None => None,
    }
}

/// The palette pass of a gif conversion.
pub open spec fn gif_first_spec(src: Seq<char>, palette: Seq<char>) -> Seq<Seq<char>> {
    ffmpeg_head() + seq!["-i"@, src, "-vf"@, gif_prep() + ",palettegen=stats_mode=diff"@, palette]
}

/// The pass of a gif conversion that applies the palette.
pub open spec fn gif_second_spec(src: Seq<char>, palette: Seq<char>, dst: Seq<char>) -> Seq<Seq<char>> {
    ffmpeg_head() + seq![
        "-i"@, src, "-i"@, palette, "-filter_complex"@,
        "[0:v]"@ + gif_prep() + "[v];[v][1:v]paletteuse=dither=bayer:bayer_scale=5[out]"@,
        "-map"@, "[out]"@, dst,
    ]
}

fn head_args() -> (r: Vec<String>)
    ensures
        r.deep_view() == ffmpeg_head(),
{
    let mut v: Vec<String> = Vec::new();
    push_arg(&mut v, "-y");
    push_arg(&mut v, "-hide_banner");
    push_arg(&mut v, "-loglevel");
    push_arg(&mut v, "error");
    assert(v.deep_view() =~= ffmpeg_head());
    v
}

fn gif_job(src: &str, dst: &str) -> (r: FfmpegJob)
    ensures
        r matches FfmpegJob::TwoPassGif { palette, first, second }
            && palette@ == with_ext(dst@, "palette.png"@)
            && first.deep_view() == gif_first_spec(src@, palette@)
            && second.deep_view() == gif_second_spec(src@, palette@, dst@),
{
    proof {
        reveal_strlit("palette.png");
    }
    let palette = path_with_extension(dst, "palette.png");
    let mut first = head_args();
    push_arg(&mut first, "-i");
    push_arg(&mut first, src);
    push_arg(&mut first, "-vf");
    push_owned(&mut first, concat("fps=12,scale=480:-1:flags=lanczos", ",palettegen=stats_mode=diff"));
    push_arg(&mut first, palette.as_str());
    assert(first.deep_view() =~= gif_first_spec(src@, palette@));

    let mut second = head_args();
    push_arg(&mut second, "-i");
    push_arg(&mut second, src);
    push_arg(&mut second, "-i");
    push_arg(&mut second, palette.as_str());
    push_arg(&mut second, "-filter_complex");
    let mut filter = concat("[0:v]", "fps=12,scale=480:-1:flags=lanczos");
    filter.append("[v];[v][1:v]paletteuse=dither=bayer:bayer_scale=5[out]");
    push_owned(&mut second, filter);
    push_arg(&mut second, "-map");
    push_arg(&mut second, "[out]");
    push_arg(&mut second, dst);
    assert(second.deep_view() =~= gif_second_spec(src@, palette@, dst@));
    FfmpegJob::TwoPassGif { palette, first, second }
}

fn encode_args(src: &str, target: Format, opts: &AvOptions) -> (r: Option<Vec<String>>)
    ensures
        match encode_args_spec(src@, target, opts.quality, opts.preset_view()) {
            Some(a) => r is Some && r->0.deep_view() == a,
            None => r is None,
        },
{
    let mut args: Vec<String> = Vec::new();
    if target.is_video() {
        let va = video_args(target, opts);
        extend_args(&mut args, va);
        if src_is_audio_only(src) {
            push_arg(&mut args, "-vn");
        }
    } else if target.is_audio() {
        let aa = audio_args(target, opts);
        extend_args(&mut args, aa);
    } else if matches!(target, Format::Png | Format::Jpg | Format::Webp | Format::Bmp | Format::Tiff) {
        // poster frame
        push_arg(&mut args, "-frames:v");
        push_arg(&mut args, "1");
        if target == Format::Jpg {
            push_arg(&mut args, "-q:v");
            push_arg(&mut args, "3");
        }
    } else {
        return None;
    }
    assert(args.deep_view() =~= encode_args_spec(src@, target, opts.quality, opts.preset_view())->0);
    Some(args)
}

/// How ffmpeg converts `src` into `dst` as `target`: a gif takes a palette
/// pass then an apply pass (palette next to `dst`); other targets take one
/// pass, or fail with `ffmpeg pipeline cannot encode <ext>`.
pub fn ffmpeg_job(src: &str, dst: &str, target: Format, opts: &AvOptions) -> (r: Result<FfmpegJob>)
    ensures
        target == Format::Gif ==> (r matches Ok(FfmpegJob::TwoPassGif { palette, first, second })
            && palette@ == with_ext(dst@, "palette.png"@)
            && first.deep_view() == gif_first_spec(src@, palette@)
            && second.deep_view() == gif_second_spec(src@, palette@, dst@)),
        target != Format::Gif ==> match single_pass_spec(src@, dst@, target, opts.quality, opts.preset_view()) {
            Some(args) => r matches Ok(FfmpegJob::Single(v)) && v.deep_view() == args,
            None => r matches Err(Error::Other(m)) && m@ == "ffmpeg pipeline cannot encode "@ + target.ext(),
        },
{
    if target == Format::Gif {
        return Ok(gif_job(src, dst));
    }

    let is_video_target = target.is_video() || target == Format::Gif;
    let src_is_image = match format_of_path(src) {
        Some(f) => f.category() == Category::Image,
        None => false,
    };

    let mut args = head_args();
    if src_is_image && is_video_target {
        // single still image -> short clip
        push_arg(&mut args, "-loop");
        push_arg(&mut args, "1");
        push_arg(&mut args, "-t");
        push_arg(&mut args, "3");
    }
    push_arg(&mut args, "-i");
    push_arg(&mut args, src);

    match encode_args(src, target, opts) {
        Some(enc) => {
            extend_args(&mut args, enc);
        },
        None => {
            return Err(Error::Other(concat("ffmpeg pipeline cannot encode ", target.extension())));
        },
    }

    push_arg(&mut args, "-progress");
    push_arg(&mut args, "pipe:1");
    push_arg(&mut args, "-nostats");
    push_arg(&mut args, dst);
    assert(args.deep_view() =~= single_pass_spec(src@, dst@, target, opts.quality, opts.preset_view())->0);
    Ok(FfmpegJob::Single(args))
}

} // verus!

verus! {

/// ffprobe's arguments for reading a media file's duration in seconds.
pub open spec fn ffprobe_args_spec(src: Seq<char>) -> Seq<Seq<char>> {
    seq!["-v"@, "error"@, "-show_entries"@, "format=duration"@, "-of"@, "default=nw=1:nk=1"@, src]
}

/// ffprobe's arguments for reading a media file's duration in seconds.
pub fn ffprobe_args(src: &str) -> (r: Vec<String>)
    ensures
        r.deep_view() == ffprobe_args_spec(src@),
{
    let mut v = args_of(&["-v", "error", "-show_entries", "format=duration", "-of", "default=nw=1:nk=1"]);
    push_arg(&mut v, src);
    assert(v.deep_view() =~= ffprobe_args_spec(src@));
    v
}

/// A line without the `\r` of a `\r\n` ending.
pub open spec fn strip_cr(line: Seq<char>) -> Seq<char> {
    if line.len() > 0 && line.last() == '\r' {
        line.drop_last()
    } else {
        line
    }
}

/// The finished lines of a text and the line still open after it.
pub open spec fn lines_acc(s: Seq<char>) -> (Seq<Seq<char>>, Seq<char>)
    decreases s.len(),
{
    if s.len() == 0 {
        (Seq::empty(), Seq::empty())
    } else {
        let (done, cur) = lines_acc(s.drop_last());
        if s.last() == '\n' {
            (done.push(strip_cr(cur)), Seq::empty())
        } else {
            (done, cur.push(s.last()))
        }
    }
}

/// The lines of a text as `str::lines` yields them: each `\n` (and a `\r`
/// right before it) ends a line; nothing follows a final `\n`.
pub open spec fn text_lines(s: Seq<char>) -> Seq<Seq<char>> {
    let (done, cur) = lines_acc(s);
    if cur.len() > 0 {
        done.push(cur)
    } else {
        done
    }
}

/// The last six lines of ffmpeg's stderr joined with ` | `: the failure
/// text a user sees.
pub open spec fn stderr_tail_spec(s: Seq<char>) -> Seq<char> {
    let ls = text_lines(s);
    let keep: int = if ls.len() < 6 { ls.len() as int } else { 6 };
    join_with(ls.skip(ls.len() - keep), " | "@)
}

/// The lines of a text, as `str::lines` yields them.
fn split_lines(s: &str) -> (r: Vec<String>)
    ensures
        r.deep_view() == text_lines(s@),
{
    let n = s.unicode_len();
    let mut done: Vec<String> = Vec::new();
    let mut cur = String::new();
    let mut i: usize = 0;
    while i < n
        invariant
            n == s@.len(),
            i <= n,
            (done.deep_view(), cur@) == lines_acc(s@.take(i as int)),
        decreases n - i,
    {
        let c = s.get_char(i);
        assert(s@.take(i + 1).drop_last() =~= s@.take(i as int));
        if c == '\n' {
            let k = cur.as_str().unicode_len();
            let line = if k > 0 && cur.as_str().get_char(k - 1) == '\r' {
                cur.as_str().substring_char(0, k - 1).to_string()
            } else {
                string_of(cur.as_str())
            };
            assert(line@ =~= strip_cr(cur@));
            let ghost before = done.deep_view();
            done.push(line);
            assert(done.deep_view() =~= before.push(strip_cr(cur@)));
            cur = String::new();
        } else {
            crate::text::push_char(&mut cur, c);
        }
        i = i + 1;
    }
    assert(s@.take(n as int) =~= s@);
    if cur.as_str().unicode_len() > 0 {
        let ghost before = done.deep_view();
        done.push(cur);
        assert(done.deep_view() =~= before.push(cur@));
    }
    done
}

/// The last six lines of a process's stderr joined with ` | `.
pub fn stderr_tail(s: &str) -> (r: String)
    ensures
        r@ == stderr_tail_spec(s@),
{
    let lines = split_lines(s);
    let n = lines.len();
    let start: usize = if n < 6 { 0 } else { n - 6 };
    let ghost kept = lines.deep_view().skip(start as int);
    let mut out = String::new();
    let mut j: usize = start;
    while j < n
        invariant
            n == lines@.len(),
            start <= j <= n,
            kept == lines.deep_view().skip(start as int),
            out@ == join_with(kept.take(j - start), " | "@),
        decreases n - j,
    {
        assert(kept.take(j + 1 - start).drop_last() =~= kept.take(j - start));
        if j > start {
            out.append(" | ");
        }
        out.append(lines[j].as_str());
        assert(lines.deep_view()[j as int] == lines@[j as int]@);
        j = j + 1;
    }
    assert(kept.take(n - start) =~= kept);
    out
}

/// How an ffmpeg run ended: success, or a failure with its exit code (-1
/// when it has none) and the tail of its stderr.
pub fn ffmpeg_outcome(success: bool, code: Option<i32>, stderr: &str) -> (r: Result<()>)
    ensures
        success ==> r is Ok,
        !success ==> (r matches Err(Error::ProcessFailed { engine, code: c, stderr: t })
            && engine@ == "ffmpeg"@
            && c as int == match code {
                Some(x) => x as int,
                None => -1,
            }
            && t@ == stderr_tail_spec(stderr@)),
{
    if success {
        return Ok(());
    }
    let c: i32 = match code {
        Some(x) => x,
        None => -1,
    };
    Err(Error::ProcessFailed { engine: string_of("ffmpeg"), code: c, stderr: stderr_tail(stderr) })
}

/// The audio encoders a video container is given.
pub open spec fn audio_encoder(a: Seq<char>) -> bool {
    a == "aac"@ || a == "libopus"@ || a == "libmp3lame"@ || a == "wmav2"@
}

/// The video encoders a video container is given.
pub open spec fn video_encoder(a: Seq<char>) -> bool {
    a == "libx264"@ || a == "libvpx-vp9"@ || a == "mpeg4"@ || a == "wmv2"@
}

/// Every video target is encoded with a video encoder and keeps its sound:
/// the arguments start with `-c:v` and a video encoder, and somewhere name
/// an audio encoder after `-c:a` with its bitrate after `-b:a`; the audio
/// stream is never dropped (`-an`).
pub proof fn lemma_video_keeps_audio(target: Format, quality: Option<u8>, preset: Option<Seq<char>>)
    requires
        target.cat() == Category::Video,
    ensures
        ({
            let a = video_args_spec(target, quality, preset);
            &&& a.len() >= 8
            &&& a[0] == "-c:v"@
            &&& video_encoder(a[1])
            &&& exists|i: int| 0 <= i && i + 3 < a.len() && #[trigger] a[i] == "-c:a"@ && audio_encoder(a[i + 1])
                && a[i + 2] == "-b:a"@
            &&& forall|j: int| 0 <= j < a.len() ==> #[trigger] a[j] != "-an"@
        }),
{
    let a = video_args_spec(target, quality, preset);
    let i: int = match target {
        Format::Avi | Format::Wmv => 4,
        Format::Flv => 6,
        _ => 8,
    };
    reveal_strlit("-c:a");
    assert(a[i] == "-c:a"@);
    assert forall|j: int| 0 <= j < a.len() implies #[trigger] a[j] != "-an"@ by {
        lemma_no_drop_flag(target, quality, preset, j);
    }
}

proof fn lemma_dec_starts_with_digit(n: nat)
    ensures
        dec(n).len() >= 1,
        '0' <= dec(n)[0] <= '9',
    decreases n,
{
    if n >= 10 {
        lemma_dec_starts_with_digit(n / 10);
    }
}

proof fn lemma_no_drop_flag(target: Format, quality: Option<u8>, preset: Option<Seq<char>>, j: int)
    requires
        target.cat() == Category::Video,
        0 <= j < video_args_spec(target, quality, preset).len(),
    ensures
        video_args_spec(target, quality, preset)[j] != "-an"@,
{
    let a = video_args_spec(target, quality, preset);
    reveal_strlit("-an");
    if a[j] == "-an"@ {
        assert(a[j].len() == 3 && a[j][0] == '-' && a[j][1] == 'a' && a[j][2] == 'n');
        if j == 5 && (target == Format::Mp4 || target == Format::Mov || target == Format::M4v || target == Format::Mkv) {
            match quality {
                Some(q) => lemma_dec_starts_with_digit(crf_value(q) as nat),
                None => reveal_strlit("23"),
            }
        } else if j >= 14 {
            reveal_strlit("-vf");
            reveal_strlit("scale='min(1280,iw)':-2");
            reveal_strlit("scale='min(1920,iw)':-2");
        } else {
            reveal_strlit("-c:v");
            reveal_strlit("-c:a");
            reveal_strlit("-b:a");
            reveal_strlit("-b:v");
            reveal_strlit("-q:v");
            reveal_strlit("-crf");
            reveal_strlit("-preset");
            reveal_strlit("-pix_fmt");
            reveal_strlit("-movflags");
            reveal_strlit("-row-mt");
            reveal_strlit("libx264");
            reveal_strlit("medium");
            reveal_strlit("yuv420p");
            reveal_strlit("aac");
            reveal_strlit("192k");
            reveal_strlit("+faststart");
            reveal_strlit("libvpx-vp9");
            reveal_strlit("34");
            reveal_strlit("0");
            reveal_strlit("1");
            reveal_strlit("libopus");
            reveal_strlit("128k");
            reveal_strlit("mpeg4");
            reveal_strlit("5");
            reveal_strlit("libmp3lame");
            reveal_strlit("wmv2");
            reveal_strlit("2500k");
            reveal_strlit("wmav2");
            reveal_strlit("veryfast");
        }
    }
}

/// A higher quality never gives a higher constant rate factor, and the
/// factor stays within x264's useful 14..=51.
pub proof fn lemma_crf_follows_quality(q1: u8, q2: u8)
    ensures
        14 <= crf_value(q1) <= 51,
        q1 <= q2 ==> crf_value(q2) <= crf_value(q1),
{
    if q1 <= q2 {
        assert((q1 as int * 34 + 50) / 100 <= (q2 as int * 34 + 50) / 100) by (nonlinear_arith)
            requires q1 <= q2;
    }
}

/// Every audio target is written by an audio encoder named after `-c:a`;
/// the lossless ones (wav, flac) get no bitrate, the lossy ones get one
/// after `-b:a`, and for mp3, ogg, m4a and aac that bitrate follows the
/// requested quality.
pub proof fn lemma_audio_args_shape(target: Format, quality: Option<u8>)
    requires
        target.cat() == Category::Audio,
    ensures
        ({
            let a = audio_args_spec(target, quality);
            &&& a.len() >= 2
            &&& a[0] == "-c:a"@
            &&& (a[1] == "libmp3lame"@ || a[1] == "pcm_s16le"@ || a[1] == "flac"@ || a[1] == "libvorbis"@
                || a[1] == "libopus"@ || a[1] == "aac"@)
            &&& (a.len() == 2 <==> (target == Format::Wav || target == Format::Flac))
            &&& (a.len() != 2 ==> a.len() == 4 && a[2] == "-b:a"@)
            &&& ((target == Format::Mp3 || target == Format::Ogg || target == Format::M4a || target == Format::Aac)
                ==> a[3] == bitrate_text(quality))
        }),
{
}

/// A single ffmpeg pass overwrites quietly, reads the source after `-i`,
/// reports progress on stdout and writes the destination last; ffmpeg is
/// asked for exactly the video, audio and still-frame targets; a still
/// image becomes a three-second looped clip when the target is a video.
pub proof fn lemma_single_pass_shape(src: Seq<char>, dst: Seq<char>, target: Format, quality: Option<u8>, preset: Option<Seq<char>>)
    ensures
        single_pass_spec(src, dst, target, quality, preset) is Some <==> (target.cat() == Category::Video
            || target.cat() == Category::Audio || target == Format::Png || target == Format::Jpg
            || target == Format::Webp || target == Format::Bmp || target == Format::Tiff),
        single_pass_spec(src, dst, target, quality, preset) matches Some(c) ==> ({
            let still = path_format(src) matches Some(f) && f.cat() == Category::Image;
            let k: int = if still && target.cat() == Category::Video { 8 } else { 4 };
            &&& c.len() >= k + 6
            &&& c.take(4) == seq!["-y"@, "-hide_banner"@, "-loglevel"@, "error"@]
            &&& (still && target.cat() == Category::Video ==> c.subrange(4, 8) == seq!["-loop"@, "1"@, "-t"@, "3"@])
            &&& c[k] == "-i"@
            &&& c[k + 1] == src
            &&& c.last() == dst
            &&& c.subrange(c.len() - 4, c.len() - 1) == seq!["-progress"@, "pipe:1"@, "-nostats"@]
        }),
{
    if single_pass_spec(src, dst, target, quality, preset) is Some {
        let c = single_pass_spec(src, dst, target, quality, preset)->0;
        let still = path_format(src) matches Some(f) && f.cat() == Category::Image;
        let k: int = if still && target.cat() == Category::Video { 8 } else { 4 };
        assert(c.take(4) =~= seq!["-y"@, "-hide_banner"@, "-loglevel"@, "error"@]);
        if still && target.cat() == Category::Video {
            assert(c.subrange(4, 8) =~= seq!["-loop"@, "1"@, "-t"@, "3"@]);
        }
        assert(c.subrange(c.len() - 4, c.len() - 1) =~= seq!["-progress"@, "pipe:1"@, "-nostats"@]);
    }
}

/// A gif is made in two passes that meet in the palette file: the first
/// reads the source and writes the palette last, the second reads the
/// source and then the palette, and writes the destination last.
pub proof fn lemma_gif_passes_share_the_palette(src: Seq<char>, palette: Seq<char>, dst: Seq<char>)
    ensures
        gif_first_spec(src, palette)[4] == "-i"@,
        gif_first_spec(src, palette)[5] == src,
        gif_first_spec(src, palette).last() == palette,
        gif_second_spec(src, palette, dst)[4] == "-i"@,
        gif_second_spec(src, palette, dst)[5] == src,
        gif_second_spec(src, palette, dst)[6] == "-i"@,
        gif_second_spec(src, palette, dst)[7] == palette,
        gif_second_spec(src, palette, dst).last() == dst,
{
}

} // verus!
