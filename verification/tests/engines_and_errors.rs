use morpho_engine::engines::{exe_name, Engines};
use morpho_engine::error::Error;

#[test]
fn executable_names() {
    assert_eq!(exe_name("ffmpeg", true), "ffmpeg.exe");
    assert_eq!(exe_name("ffmpeg", false), "ffmpeg");
    assert_eq!(exe_name("soffice.bin", true), "soffice.bin.exe");
}

#[test]
fn discovery_takes_the_first_existing_dir() {
    let a = tempfile::tempdir().unwrap();
    let b = tempfile::tempdir().unwrap();
    let gone = a.path().join("nope").to_string_lossy().into_owned();
    let da = a.path().to_string_lossy().into_owned();
    let db = b.path().to_string_lossy().into_owned();
    let found = Engines::discover(&vec![gone.clone(), db.clone(), da.clone()]).unwrap();
    assert_eq!(found.dir, db);
    assert!(Engines::discover(&vec![gone.clone()]).is_none());
    match Engines::discover_or_err(&vec![gone.clone()]) {
        Err(Error::EngineMissing(what, under)) => {
            assert_eq!(what, "any");
            assert_eq!(under, gone);
        }
        other => panic!("unexpected {other:?}"),
    }
    let other_dir = b.path().join("also-gone").to_string_lossy().into_owned();
    match Engines::discover_or_err(&vec![gone.clone(), other_dir.clone()]) {
        Err(e) => assert_eq!(e.message(), format!("engine binary not found: any (looked under {gone}, {other_dir})")),
        other => panic!("unexpected {other:?}"),
    }
    match Engines::discover_or_err(&Vec::new()) {
        Err(e) => assert_eq!(e.message(), "engine binary not found: any (looked under )"),
        other => panic!("unexpected {other:?}"),
    }
    assert_eq!(Engines::discover_or_err(&vec![gone.clone(), da.clone()]).unwrap().dir, da);
}

#[test]
fn tools_below_the_engines_dir() {
    let root = tempfile::tempdir().unwrap();
    let dir = root.path().to_string_lossy().into_owned();
    let qdir = tempfile::Builder::new().prefix("qpdf").rand_bytes(0).tempdir_in(root.path()).unwrap();
    let _q = tempfile::Builder::new().prefix("qpdf").rand_bytes(0).tempfile_in(qdir.path()).unwrap();
    let tdir = tempfile::Builder::new().prefix("tesseract").rand_bytes(0).tempdir_in(root.path()).unwrap();
    let _data = tempfile::Builder::new().prefix("tessdata").rand_bytes(0).tempdir_in(tdir.path()).unwrap();
    let e = Engines { dir: dir.clone() };
    assert_eq!(e.qpdf(), Some(format!("{dir}/qpdf/qpdf")));
    assert_eq!(e.optional("qpdf/qpdf"), Some(format!("{dir}/qpdf/qpdf")));
    // a directory is not a tool
    assert_eq!(e.optional("qpdf"), None);
    assert_eq!(e.tessdata(), Some(format!("{dir}/tesseract/tessdata")));
    assert_eq!(e.tesseract(), None);
    assert_eq!(e.pandoc(), None);
    assert_eq!(e.soffice(), None);
    match e.require("pandoc/pandoc") {
        Err(Error::EngineMissing(what, under)) => {
            assert_eq!(what, "pandoc/pandoc");
            assert_eq!(under, dir);
        }
        other => panic!("unexpected {other:?}"),
    }
    assert_eq!(e.require("qpdf/qpdf").unwrap(), format!("{dir}/qpdf/qpdf"));
    let status = e.status();
    let names: Vec<&str> = status.iter().map(|(n, _)| n.as_str()).collect();
    assert_eq!(names, vec!["ffmpeg", "libreoffice", "poppler", "tesseract", "pandoc", "qpdf"]);
    let flags: Vec<bool> = status.iter().map(|(_, ok)| *ok).collect();
    assert_eq!(flags, vec![false, false, false, false, false, true]);
}

#[test]
fn status_rows() {
    let t = Engines::status_table(true, false, true, false, true, false);
    assert_eq!(
        t,
        vec![
            ("ffmpeg".to_string(), true),
            ("libreoffice".to_string(), false),
            ("poppler".to_string(), true),
            ("tesseract".to_string(), false),
            ("pandoc".to_string(), true),
            ("qpdf".to_string(), false),
        ]
    );
}

#[test]
fn error_messages() {
    let s = |v: &str| v.to_string();
    assert_eq!(Error::Unsupported(s("mp3"), s("docx")).message(), "unsupported conversion: mp3 -> docx");
    assert_eq!(
        Error::EngineMissing(s("pandoc"), s("/e")).message(),
        "engine binary not found: pandoc (looked under /e)"
    );
    assert_eq!(Error::InputMissing(s("a.png")).message(), "input file not found: a.png");
    assert_eq!(Error::Io(s("denied")).message(), "io: denied");
    assert_eq!(Error::Image(s("bad header")).message(), "image: bad header");
    assert_eq!(
        Error::ProcessFailed { engine: s("qpdf"), code: -1, stderr: s("boom") }.message(),
        "qpdf exited with code -1: boom"
    );
    assert_eq!(
        Error::ProcessFailed { engine: s("ffmpeg"), code: 234, stderr: s("") }.message(),
        "ffmpeg exited with code 234: "
    );
    assert_eq!(Error::Cancelled.message(), "job cancelled");
    assert_eq!(Error::Other(s("anything")).message(), "anything");
}

#[test]
fn the_first_reported_directory_is_chosen() {
    let c = vec!["/a".to_string(), "/b".to_string(), "/c".to_string()];
    assert_eq!(Engines::first_existing(&c, &vec![false, true, true]).unwrap().dir, "/b");
    assert_eq!(Engines::first_existing(&c, &vec![true]).unwrap().dir, "/a");
    assert!(Engines::first_existing(&c, &vec![false, false]).is_none());
    assert!(Engines::first_existing(&c, &vec![false, false, false, true]).is_none());
    assert!(Engines::first_existing(&Vec::new(), &vec![true]).is_none());
}

#[test]
fn the_launcher_wins_over_soffice_bin() {
    let e = Engines { dir: "/e".to_string() };
    assert_eq!(e.soffice_pick(false, true, true), Some("/e/libreoffice/program/soffice".to_string()));
    assert_eq!(e.soffice_pick(false, false, true), Some("/e/libreoffice/program/soffice.bin".to_string()));
    assert_eq!(e.soffice_pick(true, true, false), Some("/e/libreoffice/program/soffice.exe".to_string()));
    assert_eq!(e.soffice_pick(false, false, false), None);
}
