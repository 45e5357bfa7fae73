use morpho_engine::engines::Engines;
use morpho_engine::error::Error;
use morpho_engine::format::Format;
use morpho_engine::queue::{
    first_free, first_sibling, next_action, JobAction, job_plan, prepare_job, resolve_output, sibling_page_number, step_command, step_destination,
    unique_tmp, worker_count, JobOptions, StepCommand,
};
use morpho_engine::route::Pipeline;

fn opts(target: Format, output_dir: Option<&str>) -> JobOptions {
    JobOptions { target, output_dir: output_dir.map(|d| d.to_string()), quality: Some(70), preset: Some("web".to_string()) }
}

fn touch(dir: &std::path::Path, name: &str) -> tempfile::NamedTempFile {
    let (stem, ext) = name.rsplit_once('.').unwrap();
    let suffix = format!(".{ext}");
    tempfile::Builder::new().prefix(stem).suffix(&suffix).rand_bytes(0).tempfile_in(dir).unwrap()
}

#[test]
fn output_names_avoid_existing_files() {
    let tmp = tempfile::tempdir().unwrap();
    let dir = tmp.path().to_string_lossy().into_owned();
    let source = format!("{dir}/clip.mov");
    let o = opts(Format::Mp4, None);
    assert_eq!(resolve_output(&source, &o, Format::Mp4), format!("{dir}/clip.mp4"));
    let _a = touch(tmp.path(), "clip.mp4");
    assert_eq!(resolve_output(&source, &o, Format::Mp4), format!("{dir}/clip (2).mp4"));
    let _b = touch(tmp.path(), "clip (2).mp4");
    assert_eq!(resolve_output(&source, &o, Format::Mp4), format!("{dir}/clip (3).mp4"));
    // a chosen output directory wins over the source's
    let other = tempfile::tempdir().unwrap();
    let odir = other.path().to_string_lossy().into_owned();
    let o2 = opts(Format::Mp4, Some(&odir));
    assert_eq!(resolve_output(&source, &o2, Format::Mp4), format!("{odir}/clip.mp4"));
}

#[test]
fn stage_files_and_destinations() {
    assert_eq!(unique_tmp("/t", 0, Format::Docx), "/t/stage0.docx");
    assert_eq!(unique_tmp("/t", 12, Format::Txt), "/t/stage12.txt");
    let tmp = tempfile::tempdir().unwrap();
    let dir = tmp.path().to_string_lossy().into_owned();
    let source = format!("{dir}/notes.md");
    let o = opts(Format::Pdf, None);
    assert_eq!(step_destination(&source, &o, "/t", 0, 2, Format::Docx), "/t/stage0.docx");
    assert_eq!(step_destination(&source, &o, "/t", 1, 2, Format::Pdf), format!("{dir}/notes.pdf"));
    assert_eq!(step_destination(&source, &o, "/t", 0, 1, Format::Pdf), format!("{dir}/notes.pdf"));
}

#[test]
fn jobs_are_planned_from_the_source_name() {
    match job_plan("x/movie.MOV", Format::Mp3) {
        Ok((f, p)) => {
            assert_eq!(f, Format::Mov);
            assert_eq!(p.steps.len(), 1);
            assert_eq!(p.steps[0].pipeline, Pipeline::Ffmpeg);
            assert_eq!(p.steps[0].output, Format::Mp3);
        }
        Err(e) => panic!("unexpected {e:?}"),
    }
    match job_plan("x/thing.xyz", Format::Mp3) {
        Err(Error::Other(m)) => assert_eq!(m, "unknown input type: x/thing.xyz"),
        other => panic!("unexpected {other:?}"),
    }
    match job_plan("x/noext", Format::Mp3) {
        Err(Error::Other(m)) => assert_eq!(m, "unknown input type: x/noext"),
        other => panic!("unexpected {other:?}"),
    }
    match job_plan("x/song.mp3", Format::Docx) {
        Err(Error::Unsupported(a, b)) => {
            assert_eq!(a, "mp3");
            assert_eq!(b, "docx");
        }
        other => panic!("unexpected {other:?}"),
    }
}

#[test]
fn a_job_needs_its_source() {
    let tmp = tempfile::tempdir().unwrap();
    let missing = tmp.path().join("gone.png").to_string_lossy().into_owned();
    match prepare_job(&missing, Format::Jpg) {
        Err(Error::InputMissing(s)) => assert_eq!(s, missing),
        other => panic!("unexpected {other:?}"),
    }
    let f = touch(tmp.path(), "pic.png");
    let path = f.path().to_string_lossy().into_owned();
    match prepare_job(&path, Format::Jpg) {
        Ok((src, p)) => {
            assert_eq!(src, Format::Png);
            assert_eq!(p.steps[0].pipeline, Pipeline::NativeImage);
        }
        other => panic!("unexpected {other:?}"),
    }
    match prepare_job(&path, Format::Heic) {
        Err(Error::Unsupported(a, b)) => assert_eq!((a.as_str(), b.as_str()), ("png", "heic")),
        other => panic!("unexpected {other:?}"),
    }
}

#[test]
fn workers() {
    assert_eq!(worker_count(None), 3);
    assert_eq!(worker_count(Some(0)), 1);
    assert_eq!(worker_count(Some(2)), 2);
    assert_eq!(worker_count(Some(16)), 4);
}

#[test]
fn first_page_sibling() {
    assert_eq!(sibling_page_number("doc-3", "PNG", "doc", "png"), Some(3));
    assert_eq!(sibling_page_number("doc-3", "jpg", "doc", "png"), None);
    assert_eq!(sibling_page_number("doc", "png", "doc", "png"), None);
    assert_eq!(sibling_page_number("doc-x", "png", "doc", "png"), None);
    let entries = vec![
        (Some("doc-10".to_string()), Some("png".to_string())),
        (Some("doc-2".to_string()), Some("png".to_string())),
        (Some("readme".to_string()), Some("txt".to_string())),
        (Some("doc-02".to_string()), Some("png".to_string())),
    ];
    assert_eq!(first_sibling(&entries, "doc", "png"), Some(1));
    let none = vec![(Some("readme".to_string()), Some("txt".to_string()))];
    assert_eq!(first_sibling(&none, "doc", "png"), None);
    let broken = vec![(Some("doc-1".to_string()), Some("png".to_string())), (None, Some("png".to_string()))];
    assert_eq!(first_sibling(&broken, "doc", "png"), None);
}

#[test]
fn step_commands_without_engines() {
    let tmp = tempfile::tempdir().unwrap();
    let dir = tmp.path().to_string_lossy().into_owned();
    let engines = Engines { dir: dir.clone() };
    let o = opts(Format::Jpg, None);
    match step_command(&engines, false, Pipeline::NativeImage, "a.png", "a.jpg", Format::Jpg, &o) {
        Ok(StepCommand::NativeImage { quality }) => assert_eq!(quality, Some(70)),
        other => panic!("unexpected {other:?}"),
    }
    match step_command(&engines, false, Pipeline::Ffmpeg, "a.mov", "a.mp4", Format::Mp4, &o) {
        Err(Error::EngineMissing(what, under)) => {
            assert_eq!(what, "ffmpeg/ffmpeg");
            assert_eq!(under, dir);
        }
        other => panic!("unexpected {other:?}"),
    }
    match step_command(&engines, false, Pipeline::LibreOffice, "a.docx", "a.pdf", Format::Pdf, &o) {
        Err(Error::EngineMissing(what, under)) => {
            assert_eq!(what, "libreoffice");
            assert_eq!(under, dir);
        }
        other => panic!("unexpected {other:?}"),
    }
    assert!(matches!(
        step_command(&engines, true, Pipeline::LibreOffice, "a.docx", "a.pdf", Format::Pdf, &o),
        Ok(StepCommand::LibreOffice)
    ));
    match step_command(&engines, false, Pipeline::Poppler, "a.pdf", "a.txt", Format::Txt, &o) {
        Err(Error::EngineMissing(what, under)) => assert_eq!((what.as_str(), under.as_str()), ("poppler", "")),
        other => panic!("unexpected {other:?}"),
    }
    match step_command(&engines, false, Pipeline::Poppler, "a.pdf", "a.md", Format::Md, &o) {
        Err(Error::Other(m)) => assert_eq!(m, "poppler step target mismatch"),
        other => panic!("unexpected {other:?}"),
    }
    match step_command(&engines, false, Pipeline::Pandoc, "a.md", "a.docx", Format::Docx, &o) {
        Err(Error::EngineMissing(what, _)) => assert_eq!(what, "pandoc"),
        other => panic!("unexpected {other:?}"),
    }
    match step_command(&engines, false, Pipeline::Ocr, "a.png", "a.txt", Format::Txt, &o) {
        Err(Error::EngineMissing(what, _)) => assert_eq!(what, "tesseract"),
        other => panic!("unexpected {other:?}"),
    }
    match step_command(&engines, false, Pipeline::Qpdf, "a.pdf", "b.pdf", Format::Pdf, &o) {
        Err(Error::Other(m)) => assert_eq!(m, "qpdf is command-only (merge/split/encrypt)"),
        other => panic!("unexpected {other:?}"),
    }
    assert!(matches!(
        step_command(&engines, false, Pipeline::Copy, "a.json", "a.yaml", Format::Yaml, &o),
        Ok(StepCommand::Copy)
    ));
}

#[test]
fn step_commands_with_engines() {
    let tmp = tempfile::tempdir().unwrap();
    let dir = tmp.path().to_string_lossy().into_owned();
    let sub = |name: &str| tempfile::Builder::new().prefix(name).rand_bytes(0).tempdir_in(tmp.path()).unwrap();
    let ff = sub("ffmpeg");
    let _ffmpeg = tempfile::Builder::new().prefix("ffmpeg").rand_bytes(0).tempfile_in(ff.path()).unwrap();
    let _ffprobe = tempfile::Builder::new().prefix("ffprobe").rand_bytes(0).tempfile_in(ff.path()).unwrap();
    let pop = sub("poppler");
    let _ppm = tempfile::Builder::new().prefix("pdftoppm").rand_bytes(0).tempfile_in(pop.path()).unwrap();
    let engines = Engines { dir: dir.clone() };
    let o = opts(Format::Mp4, None);
    match step_command(&engines, false, Pipeline::Ffmpeg, "a.mov", "a.mp4", Format::Mp4, &o) {
        Ok(StepCommand::Ffmpeg { ffmpeg, ffprobe, options }) => {
            assert_eq!(ffmpeg, format!("{dir}/ffmpeg/ffmpeg"));
            assert_eq!(ffprobe, format!("{dir}/ffmpeg/ffprobe"));
            assert_eq!(options.quality, Some(70));
            assert_eq!(options.preset.as_deref(), Some("web"));
        }
        other => panic!("unexpected {other:?}"),
    }
    match step_command(&engines, false, Pipeline::Poppler, "in/report.pdf", "out/report.png", Format::Png, &o) {
        Ok(StepCommand::PdfToImages { program, out_dir, stem, args }) => {
            assert_eq!(program, format!("{dir}/poppler/pdftoppm"));
            assert_eq!(out_dir, "out");
            assert_eq!(stem, "report");
            assert_eq!(args, vec!["-r", "150", "-png", "in/report.pdf", "out/report"]);
        }
        other => panic!("unexpected {other:?}"),
    }
}

#[test]
fn the_first_free_name_is_taken() {
    assert_eq!(first_free(&vec![false]), 0);
    assert_eq!(first_free(&vec![true, true, false, true]), 2);
    assert_eq!(first_free(&vec![true, true]), 2);
    assert_eq!(first_free(&Vec::new()), 0);
}

#[test]
fn a_job_runs_its_steps_in_order() {
    let plan = morpho_engine::route::plan(Format::Md, Format::Pdf).unwrap();
    let tmp = tempfile::tempdir().unwrap();
    let dir = tmp.path().to_string_lossy().into_owned();
    let source = format!("{dir}/notes.md");
    let o = opts(Format::Pdf, None);
    match next_action(&source, &o, "/t", &plan, 0, &source, false) {
        JobAction::Run { idx, src, dst, pipeline, target } => {
            assert_eq!((idx, pipeline, target), (0, Pipeline::Pandoc, Format::Docx));
            assert_eq!(src, source);
            assert_eq!(dst, "/t/stage0.docx");
        }
        other => panic!("unexpected {other:?}"),
    }
    match next_action(&source, &o, "/t", &plan, 1, "/t/stage0.docx", false) {
        JobAction::Run { idx, src, dst, pipeline, target } => {
            assert_eq!((idx, pipeline, target), (1, Pipeline::LibreOffice, Format::Pdf));
            assert_eq!(src, "/t/stage0.docx");
            assert_eq!(dst, format!("{dir}/notes.pdf"));
        }
        other => panic!("unexpected {other:?}"),
    }
    assert!(matches!(next_action(&source, &o, "/t", &plan, 1, "x", true), JobAction::Cancel));
    match next_action(&source, &o, "/t", &plan, 2, "/out/notes.pdf", true) {
        JobAction::Finish { output } => assert_eq!(output, "/out/notes.pdf"),
        other => panic!("unexpected {other:?}"),
    }
}
