use morpho_engine::format::{all_in_order, Category, Format};
use morpho_engine::route::{plan, targets_for, Pipeline};

#[test]
fn every_plan_ends_at_its_target() {
    for src in all_in_order() {
        for dst in all_in_order() {
            if let Some(p) = plan(src, dst) {
                assert!(p.steps.len() == 1 || p.steps.len() == 2, "{src:?} -> {dst:?}");
                assert_eq!(p.steps.last().unwrap().output, dst);
                assert!(p.steps.iter().all(|s| s.pipeline != Pipeline::Qpdf));
            }
        }
    }
}

#[test]
fn no_identity_conversion() {
    for f in all_in_order() {
        assert!(plan(f, f).is_none());
        assert!(!targets_for(f).contains(&f));
    }
}

#[test]
fn heic_is_never_written() {
    for src in all_in_order() {
        assert!(plan(src, Format::Heic).is_none());
    }
}

#[test]
fn audio_only_becomes_audio() {
    for src in all_in_order().into_iter().filter(|f| f.is_audio()) {
        for dst in all_in_order() {
            if plan(src, dst).is_some() {
                assert_eq!(dst.category(), Category::Audio);
            }
        }
    }
}

#[test]
fn webp_and_avif_images_go_through_ffmpeg() {
    for src in all_in_order().into_iter().filter(|f| f.category() == Category::Image) {
        for dst in [Format::Webp, Format::Avif] {
            if src != dst {
                let p = plan(src, dst).unwrap();
                assert_eq!(p.steps.len(), 1);
                assert_eq!(p.steps[0].pipeline, Pipeline::Ffmpeg);
            }
        }
    }
}

#[test]
fn targets_are_the_plannable_formats_in_order() {
    for src in all_in_order() {
        let expected: Vec<Format> = all_in_order()
            .into_iter()
            .filter(|f| plan(src, *f).is_some())
            .collect();
        assert_eq!(targets_for(src), expected);
    }
    assert_eq!(
        targets_for(Format::Flac),
        vec![Format::Mp3, Format::Wav, Format::Ogg, Format::Opus, Format::M4a, Format::Aac]
    );
}

#[test]
fn more_routes() {
    let steps = |a, b| plan(a, b).map(|p| p.steps.iter().map(|s| (s.pipeline, s.output)).collect::<Vec<_>>());
    assert_eq!(steps(Format::Png, Format::Txt), Some(vec![(Pipeline::Ocr, Format::Txt)]));
    assert_eq!(steps(Format::Avif, Format::Txt), None);
    assert_eq!(steps(Format::Jpg, Format::Pdf), Some(vec![(Pipeline::LibreOffice, Format::Pdf)]));
    assert_eq!(steps(Format::Gif, Format::Mp4), Some(vec![(Pipeline::Ffmpeg, Format::Mp4)]));
    assert_eq!(steps(Format::Heic, Format::Mp4), None);
    assert_eq!(
        steps(Format::Epub, Format::Pdf),
        Some(vec![(Pipeline::Pandoc, Format::Docx), (Pipeline::LibreOffice, Format::Pdf)])
    );
    assert_eq!(steps(Format::Json, Format::Yaml), Some(vec![(Pipeline::Copy, Format::Yaml)]));
    assert_eq!(steps(Format::Csv, Format::Xlsx), Some(vec![(Pipeline::LibreOffice, Format::Xlsx)]));
    assert_eq!(steps(Format::Json, Format::Pdf), None);
    assert_eq!(steps(Format::Pdf, Format::Xlsx), None);
    assert_eq!(
        steps(Format::Pdf, Format::Md),
        Some(vec![(Pipeline::Poppler, Format::Txt), (Pipeline::Pandoc, Format::Md)])
    );
    assert_eq!(steps(Format::Mp4, Format::Ico), None);
}
