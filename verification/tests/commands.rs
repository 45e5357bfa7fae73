use morpho_engine::office::{produced_paths, soffice_outcome};
use morpho_engine::ocr::{chi_sim_data, detect_langs};
use morpho_engine::av::{
    audio_args, ffmpeg_job, ffmpeg_outcome, ffprobe_args, format_of_path, src_is_audio_only, stderr_tail, video_args,
    AvOptions, FfmpegJob,
};
use morpho_engine::docs::convert_args;
use morpho_engine::error::Error;
use morpho_engine::format::Format;
use morpho_engine::ocr::{langs_for, tesseract_args};
use morpho_engine::office::{path_to_file_url, produced_path, soffice_args};

fn strs(v: &[&str]) -> Vec<String> {
    v.iter().map(|s| s.to_string()).collect()
}

fn opts(quality: Option<u8>, preset: Option<&str>) -> AvOptions {
    AvOptions { quality, preset: preset.map(|p| p.to_string()) }
}

fn crf_of(args: &[String]) -> String {
    let i = args.iter().position(|a| a == "-crf").unwrap();
    args[i + 1].clone()
}

#[test]
fn crf_follows_quality() {
    assert_eq!(crf_of(&video_args(Format::Mp4, &opts(None, None))), "23");
    assert_eq!(crf_of(&video_args(Format::Mp4, &opts(Some(0), None))), "51");
    assert_eq!(crf_of(&video_args(Format::Mp4, &opts(Some(25), None))), "42");
    assert_eq!(crf_of(&video_args(Format::Mp4, &opts(Some(75), None))), "25");
    assert_eq!(crf_of(&video_args(Format::Mkv, &opts(Some(100), None))), "17");
    assert_eq!(crf_of(&video_args(Format::Mov, &opts(Some(255), None))), "14");
}

#[test]
fn mp4_args_with_presets() {
    let base = strs(&[
        "-c:v", "libx264", "-preset", "medium", "-crf", "23", "-pix_fmt", "yuv420p", "-c:a", "aac",
        "-b:a", "192k", "-movflags", "+faststart",
    ]);
    assert_eq!(video_args(Format::Mp4, &opts(None, None)), base);
    assert_eq!(video_args(Format::M4v, &opts(None, Some("web"))), base);
    let mut wechat = base.clone();
    wechat.extend(strs(&["-vf", "scale='min(1280,iw)':-2"]));
    assert_eq!(video_args(Format::Mp4, &opts(None, Some("wechat"))), wechat);
    let mut archive = base.clone();
    archive.extend(strs(&["-vf", "scale='min(1920,iw)':-2"]));
    assert_eq!(video_args(Format::Mov, &opts(None, Some("archive"))), archive);
    // presets only scale the mp4 family
    assert_eq!(
        video_args(Format::Mkv, &opts(None, Some("wechat"))),
        strs(&["-c:v", "libx264", "-preset", "medium", "-crf", "23", "-pix_fmt", "yuv420p", "-c:a", "aac", "-b:a", "192k"])
    );
    assert_eq!(
        video_args(Format::Webm, &opts(Some(1), None)),
        strs(&["-c:v", "libvpx-vp9", "-crf", "34", "-b:v", "0", "-row-mt", "1", "-c:a", "libopus", "-b:a", "128k"])
    );
    assert!(video_args(Format::Mp3, &opts(None, None)).is_empty());
}

#[test]
fn audio_bitrate_follows_quality() {
    assert_eq!(audio_args(Format::Mp3, &opts(None, None)), strs(&["-c:a", "libmp3lame", "-b:a", "192k"]));
    assert_eq!(audio_args(Format::Mp3, &opts(Some(50), None)), strs(&["-c:a", "libmp3lame", "-b:a", "146k"]));
    assert_eq!(audio_args(Format::Ogg, &opts(Some(0), None)), strs(&["-c:a", "libvorbis", "-b:a", "96k"]));
    assert_eq!(audio_args(Format::Aac, &opts(Some(250), None)), strs(&["-c:a", "aac", "-b:a", "320k"]));
    assert_eq!(audio_args(Format::Opus, &opts(Some(50), None)), strs(&["-c:a", "libopus", "-b:a", "128k"]));
    assert_eq!(audio_args(Format::Wav, &opts(Some(50), None)), strs(&["-c:a", "pcm_s16le"]));
    assert_eq!(audio_args(Format::Flac, &opts(None, None)), strs(&["-c:a", "flac"]));
    assert!(audio_args(Format::Mp4, &opts(None, None)).is_empty());
}

#[test]
fn source_kinds_by_extension() {
    assert_eq!(format_of_path("a/b/song.FLAC"), Some(Format::Flac));
    assert_eq!(format_of_path("noext"), None);
    assert!(src_is_audio_only("x/y.m4a"));
    assert!(!src_is_audio_only("x/y.mp4"));
}

#[test]
fn single_pass_commands() {
    let job = ffmpeg_job("in/clip.mov", "out/clip.mp3", Format::Mp3, &opts(None, None)).unwrap();
    match job {
        FfmpegJob::Single(args) => assert_eq!(
            args,
            strs(&[
                "-y", "-hide_banner", "-loglevel", "error", "-i", "in/clip.mov", "-c:a", "libmp3lame",
                "-b:a", "192k", "-progress", "pipe:1", "-nostats", "out/clip.mp3"
            ])
        ),
        other => panic!("unexpected {other:?}"),
    }
    // a still image becomes a 3 s clip
    match ffmpeg_job("p.png", "p.webm", Format::Webm, &opts(None, None)).unwrap() {
        FfmpegJob::Single(args) => assert_eq!(&args[4..10], &strs(&["-loop", "1", "-t", "3", "-i", "p.png"])[..]),
        other => panic!("unexpected {other:?}"),
    }
    // audio into a video container drops the video stream
    match ffmpeg_job("s.wav", "s.mkv", Format::Mkv, &opts(None, None)).unwrap() {
        FfmpegJob::Single(args) => {
            let i = args.iter().position(|a| a == "-progress").unwrap();
            assert_eq!(args[i - 1], "-vn");
        }
        other => panic!("unexpected {other:?}"),
    }
    // poster frame
    match ffmpeg_job("v.mp4", "v.jpg", Format::Jpg, &opts(None, None)).unwrap() {
        FfmpegJob::Single(args) => assert_eq!(
            args,
            strs(&[
                "-y", "-hide_banner", "-loglevel", "error", "-i", "v.mp4", "-frames:v", "1", "-q:v", "3",
                "-progress", "pipe:1", "-nostats", "v.jpg"
            ])
        ),
        other => panic!("unexpected {other:?}"),
    }
    match ffmpeg_job("v.mp4", "v.docx", Format::Docx, &opts(None, None)) {
        Err(Error::Other(m)) => assert_eq!(m, "ffmpeg pipeline cannot encode docx"),
        other => panic!("unexpected {other:?}"),
    }
}

#[test]
fn gif_takes_two_passes() {
    match ffmpeg_job("in/v.mp4", "out/anim.gif", Format::Gif, &opts(Some(10), None)).unwrap() {
        FfmpegJob::TwoPassGif { palette, first, second } => {
            assert_eq!(palette, "out/anim.palette.png");
            assert_eq!(
                first,
                strs(&[
                    "-y", "-hide_banner", "-loglevel", "error", "-i", "in/v.mp4", "-vf",
                    "fps=12,scale=480:-1:flags=lanczos,palettegen=stats_mode=diff", "out/anim.palette.png"
                ])
            );
            assert_eq!(
                second,
                strs(&[
                    "-y", "-hide_banner", "-loglevel", "error", "-i", "in/v.mp4", "-i",
                    "out/anim.palette.png", "-filter_complex",
                    "[0:v]fps=12,scale=480:-1:flags=lanczos[v];[v][1:v]paletteuse=dither=bayer:bayer_scale=5[out]",
                    "-map", "[out]", "out/anim.gif"
                ])
            );
        }
        other => panic!("unexpected {other:?}"),
    }
}

#[test]
fn pandoc_commands() {
    assert_eq!(
        convert_args("notes/readme.md", Format::Epub, "out/readme.epub"),
        Some(strs(&["-t", "epub", "-s", "--metadata", "title=readme", "-o", "out/readme.epub", "notes/readme.md"]))
    );
    assert_eq!(
        convert_args("a.md", Format::Html, "a.html"),
        Some(strs(&["-t", "html", "-s", "--embed-resources", "-o", "a.html", "a.md"]))
    );
    assert_eq!(
        convert_args("a.txt", Format::Md, "a.md"),
        Some(strs(&["-t", "markdown", "-o", "a.md", "a.txt"]))
    );
    assert_eq!(convert_args("a.txt", Format::Txt, "b.txt"), Some(strs(&["-t", "plain", "-o", "b.txt", "a.txt"])));
    assert_eq!(convert_args("a.md", Format::Pdf, "a.pdf"), None);
}

#[test]
fn tesseract_command() {
    assert_eq!(
        tesseract_args("scan.png", "/e/tesseract/tessdata", "eng"),
        strs(&["scan.png", "stdout", "-l", "eng", "--tessdata-dir", "/e/tesseract/tessdata", "--psm", "3"])
    );
    assert_eq!(langs_for(true), "eng+chi_sim");
    assert_eq!(langs_for(false), "eng");
}

#[test]
fn libreoffice_command() {
    assert_eq!(path_to_file_url(r"C:\tmp\profile"), "file:///C:/tmp/profile");
    assert_eq!(path_to_file_url("/tmp/p"), "file:////tmp/p");
    let inputs = strs(&["/in/a.docx", "/in/b.docx"]);
    assert_eq!(
        soffice_args("file:///p", Format::Pdf, "/out", &inputs),
        strs(&[
            "--headless", "--norestore", "--nolockcheck", "--nodefault", "--nologo",
            "-env:UserInstallation=file:///p", "--convert-to", "pdf", "--outdir", "/out", "/in/a.docx",
            "/in/b.docx"
        ])
    );
    assert_eq!(produced_path("/out", "/in/report.final.docx", Format::Pdf), "/out/report.pdf");
    assert_eq!(produced_path("/out", "/in/sheet.xlsx", Format::Csv), "/out/sheet.csv");
}

#[test]
fn ffprobe_and_ffmpeg_failures() {
    assert_eq!(
        ffprobe_args("a b.mp4"),
        strs(&["-v", "error", "-show_entries", "format=duration", "-of", "default=nw=1:nk=1", "a b.mp4"])
    );
    assert_eq!(stderr_tail(""), "");
    assert_eq!(stderr_tail("one\n"), "one");
    assert_eq!(stderr_tail("a\r\nb\n\nc"), "a | b |  | c");
    assert_eq!(stderr_tail("1\n2\n3\n4\n5\n6\n7\n8\n"), "3 | 4 | 5 | 6 | 7 | 8");
    assert_eq!(stderr_tail("x\r"), "x\r");
    assert!(ffmpeg_outcome(true, Some(0), "noise").is_ok());
    match ffmpeg_outcome(false, Some(1), "l1\nl2\n") {
        Err(Error::ProcessFailed { engine, code, stderr }) => {
            assert_eq!(engine, "ffmpeg");
            assert_eq!(code, 1);
            assert_eq!(stderr, "l1 | l2");
        }
        other => panic!("unexpected {other:?}"),
    }
    match ffmpeg_outcome(false, None, "") {
        Err(e) => assert_eq!(e.message(), "ffmpeg exited with code -1: "),
        other => panic!("unexpected {other:?}"),
    }
}

#[test]
fn html_output_embeds_its_images() {
    assert_eq!(
        convert_args("report.docx", Format::Html, "report.html"),
        Some(strs(&["-t", "html", "-s", "--embed-resources", "-o", "report.html", "report.docx"]))
    );
}

#[test]
fn crf_matches_the_rounded_float_formula_for_every_quality() {
    for q in 0..=255u8 {
        let expected = (51 - (q as f32 * 34.0 / 100.0).round() as i32).clamp(14, 51).to_string();
        assert_eq!(crf_of(&video_args(Format::Mp4, &opts(Some(q), None))), expected, "quality {q}");
    }
}

#[test]
fn soffice_outcome_keeps_the_files_that_exist() {
    let paths = produced_paths("/out", &strs(&["/in/a.docx", "/in/b.odt", "/in/c.rtf"]), Format::Pdf);
    assert_eq!(paths, strs(&["/out/a.pdf", "/out/b.pdf", "/out/c.pdf"]));
    let ok = soffice_outcome(&paths, &vec![true, false, true], Some(0), "", "").unwrap();
    assert_eq!(ok, strs(&["/out/a.pdf", "/out/c.pdf"]));
    match soffice_outcome(&paths, &vec![false, false, false], Some(3), "", "log on stdout") {
        Err(Error::ProcessFailed { engine, code, stderr }) => {
            assert_eq!((engine.as_str(), code, stderr.as_str()), ("libreoffice", 3, "log on stdout"));
        }
        other => panic!("unexpected {other:?}"),
    }
    match soffice_outcome(&paths, &vec![], None, "err text", "out text") {
        Err(Error::ProcessFailed { code, stderr, .. }) => assert_eq!((code, stderr.as_str()), (-1, "err text")),
        other => panic!("unexpected {other:?}"),
    }
}

#[test]
fn chinese_language_data_lives_in_tessdata() {
    let p = chi_sim_data("/usr/share/tessdata");
    assert_eq!(std::path::PathBuf::from(&p), std::path::Path::new("/usr/share/tessdata").join("chi_sim.traineddata"));
    assert_eq!(detect_langs("/definitely/not/a/tessdata/dir"), "eng");
}
