use morpho_engine::format::{all_in_order, formats_in_category, Category, Format};
use morpho_engine::queue::ui_matrix;
use morpho_engine::route::targets_for;

#[test]
fn every_format_is_listed_once() {
    let all = all_in_order();
    assert_eq!(all.len(), 42);
    for (i, a) in all.iter().enumerate() {
        for b in all.iter().skip(i + 1) {
            assert_ne!(a, b);
        }
    }
    assert_eq!(all[0], Format::Png);
    assert_eq!(all[41], Format::Pdf);
}

#[test]
fn listing_follows_categories() {
    let mut joined = Vec::new();
    for c in Category::all().iter() {
        for f in formats_in_category(*c) {
            assert_eq!(f.category(), *c);
            joined.push(f);
        }
    }
    assert_eq!(joined, all_in_order());
    assert_eq!(
        formats_in_category(Category::Image),
        vec![
            Format::Png,
            Format::Jpg,
            Format::Webp,
            Format::Avif,
            Format::Gif,
            Format::Bmp,
            Format::Tiff,
            Format::Ico,
            Format::Heic
        ]
    );
    assert_eq!(formats_in_category(Category::Pdf), vec![Format::Pdf]);
}

#[test]
fn extension_aliases_and_case() {
    assert_eq!(Format::from_extension("PNG"), Some(Format::Png));
    assert_eq!(Format::from_extension("JpEg"), Some(Format::Jpg));
    assert_eq!(Format::from_extension("jpe"), Some(Format::Jpg));
    assert_eq!(Format::from_extension("tif"), Some(Format::Tiff));
    assert_eq!(Format::from_extension("dib"), Some(Format::Bmp));
    assert_eq!(Format::from_extension("oga"), Some(Format::Ogg));
    assert_eq!(Format::from_extension("m4b"), Some(Format::M4a));
    assert_eq!(Format::from_extension("log"), Some(Format::Txt));
    assert_eq!(Format::from_extension("markdown"), Some(Format::Md));
    assert_eq!(Format::from_extension("xhtml"), Some(Format::Html));
    assert_eq!(Format::from_extension("tsv"), Some(Format::Csv));
    assert_eq!(Format::from_extension("xlsm"), Some(Format::Xlsx));
    assert_eq!(Format::from_extension("et"), Some(Format::Xls));
    assert_eq!(Format::from_extension("dps"), Some(Format::Ppt));
    assert_eq!(Format::from_extension(""), None);
    assert_eq!(Format::from_extension("exe"), None);
    assert_eq!(Format::from_extension(".png"), None);
}

#[test]
fn display_parse_roundtrip() {
    for f in all_in_order() {
        let shown = f.to_string();
        assert_eq!(shown, f.extension());
        assert_eq!(Format::parse(&shown), Ok(f));
        let parsed: Format = shown.parse().unwrap();
        assert_eq!(parsed, f);
    }
}

#[test]
fn parse_trims_dots_and_case() {
    assert_eq!(Format::parse(" .PNG "), Ok(Format::Png));
    assert_eq!(Format::parse("..webp"), Ok(Format::Webp));
    assert_eq!(Format::parse("\tYml\n"), Ok(Format::Yaml));
    assert_eq!(Format::parse("nope"), Err("unknown format: nope".to_string()));
    assert_eq!(Format::parse(" x "), Err("unknown format:  x ".to_string()));
}

#[test]
fn category_predicates() {
    assert_eq!(Format::Gif.category(), Category::Image);
    assert_eq!(Format::Csv.category(), Category::Text);
    assert_eq!(Format::Epub.category(), Category::Document);
    assert!(Format::Webp.is_native_image());
    assert!(!Format::Avif.is_native_image());
    assert!(!Format::Webp.is_native_encode());
    assert!(Format::Ico.is_native_encode());
    assert!(Format::Flv.is_video());
    assert!(!Format::Gif.is_video());
    assert!(Format::Aac.is_audio());
    assert!(Format::Epub.is_office_doc());
    assert!(!Format::Pdf.is_office_doc());
}

#[test]
fn matrix_lists_every_format_with_its_targets() {
    let m = ui_matrix();
    let all = all_in_order();
    assert_eq!(m.len(), all.len());
    for (entry, f) in m.iter().zip(all.iter()) {
        assert_eq!(entry.format, *f);
        assert_eq!(entry.category, f.category());
        assert_eq!(entry.targets, targets_for(*f));
    }
    let md = m.iter().find(|e| e.format == Format::Md).unwrap();
    assert!(md.targets.contains(&Format::Pdf));
    assert!(md.targets.contains(&Format::Epub));
}
