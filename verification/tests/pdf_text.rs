use morpho_engine::pdfword::emit::{para_layout, run_bold};
use morpho_engine::pdfword::emit::{heading_style, run_color};
use morpho_engine::pdfword::layout::{
    add_chunk_runs, append_line_runs, bold_majority, is_bullet_text, is_numbered, para_color, runs_text, Heading,
};
use morpho_engine::pdfword::parser::{finalize_runs, flush_run, font_face, is_blank, FontFace, TextRun};

fn run(text: &str, bold: bool, italic: bool) -> TextRun {
    TextRun { text: text.to_string(), bold, italic }
}

fn view(v: &[TextRun]) -> Vec<(String, bool, bool)> {
    v.iter().map(|r| (r.text.clone(), r.bold, r.italic)).collect()
}

#[test]
fn font_faces() {
    assert_eq!(font_face("Arial-BoldMT"), FontFace { bold: true, italic: false, bullet: false });
    assert_eq!(font_face("Helvetica-Oblique"), FontFace { bold: false, italic: true, bullet: false });
    assert_eq!(font_face("SourceSans-BlackItalic"), FontFace { bold: true, italic: true, bullet: false });
    assert_eq!(font_face("ZapfDingbats"), FontFace { bold: false, italic: false, bullet: true });
    assert_eq!(font_face("Symbol"), FontFace { bold: false, italic: false, bullet: true });
    assert_eq!(font_face("Times"), FontFace { bold: false, italic: false, bullet: false });
}

#[test]
fn pending_text_joins_runs_of_the_same_style() {
    let mut runs = Vec::new();
    let mut pending = "Hello ".to_string();
    flush_run(&mut runs, &mut pending, false, false);
    assert!(pending.is_empty());
    pending.push_str("world");
    flush_run(&mut runs, &mut pending, false, false);
    pending.push_str("!");
    flush_run(&mut runs, &mut pending, true, false);
    flush_run(&mut runs, &mut pending, false, true);
    assert_eq!(view(&runs), vec![("Hello world".to_string(), false, false), ("!".to_string(), true, false)]);
}

#[test]
fn finished_chunks() {
    let kept = finalize_runs(vec![run("a", false, false)], " b".to_string(), false, false, false).unwrap();
    assert_eq!(view(&kept), vec![("a b".to_string(), false, false)]);
    assert!(finalize_runs(vec![run("  ", true, false)], "\t".to_string(), false, false, false).is_none());
    let bullet = finalize_runs(vec![run(" ", true, false)], String::new(), true, false, true).unwrap();
    assert_eq!(view(&bullet), vec![("\u{2022}".to_string(), false, false)]);
    let plain = finalize_runs(Vec::new(), "x".to_string(), false, false, true).unwrap();
    assert_eq!(view(&plain), vec![("x".to_string(), false, false)]);
    assert!(is_blank(" \u{a0}\n"));
    assert!(!is_blank(" . "));
}

#[test]
fn bullets_and_numbering() {
    assert!(is_bullet_text("  \u{2022} item"));
    assert!(is_bullet_text("- item"));
    assert!(is_bullet_text("* item"));
    assert!(!is_bullet_text("-item"));
    assert!(!is_bullet_text("item"));
    assert!(is_numbered("12. Twelve"));
    assert!(is_numbered("  3a) sub"));
    assert!(is_numbered("1.) odd"));
    // the separator must be the third character
    assert!(!is_numbered("1. One"));
    assert!(!is_numbered("a1. x"));
}

#[test]
fn joining_lines_and_chunks() {
    let mut para = vec![run("word", false, false)];
    append_line_runs(&mut para, vec![run("wrap", false, false)]);
    assert_eq!(view(&para), vec![("word ".to_string(), false, false), ("wrap".to_string(), false, false)]);
    let mut para = vec![run("end,", false, false)];
    append_line_runs(&mut para, vec![run("next", true, false)]);
    assert_eq!(view(&para), vec![("end,".to_string(), false, false), ("next".to_string(), true, false)]);
    assert_eq!(runs_text(&para), "end,next");

    let mut line = vec![run("left", false, false)];
    add_chunk_runs(&mut line, &vec![run("", true, false), run("right", true, false)], true);
    assert_eq!(view(&line), vec![("left ".to_string(), false, false), ("right".to_string(), true, false)]);
    add_chunk_runs(&mut line, &vec![run("more", false, false)], false);
    assert_eq!(runs_text(&line), "left rightmore");
    let mut spaced = vec![run("a ", false, false)];
    add_chunk_runs(&mut spaced, &vec![run("b", false, false)], true);
    assert_eq!(runs_text(&spaced), "a b");
}

#[test]
fn bold_lines() {
    let line = vec![vec![run("AB", true, false)], vec![run("C", false, false)]];
    // one bold run against three characters
    assert!(!bold_majority(&line));
    let line = vec![vec![run("A", true, false), run("B", true, false)], vec![run("C", false, false)]];
    assert!(bold_majority(&line));
    assert!(!bold_majority(&Vec::new()));
}

#[test]
fn colours_and_heading_styles() {
    assert_eq!(heading_style(Heading::H1), "Heading1");
    assert_eq!(heading_style(Heading::H3), "Heading3");
    assert_eq!(run_color(&Some("#FF0000".to_string())), Some("FF0000".to_string()));
    assert_eq!(run_color(&Some("#000000".to_string())), None);
    assert_eq!(run_color(&None), None);
    let c = |v: &[Option<&str>]| v.iter().map(|x| x.map(|s| s.to_string())).collect::<Vec<_>>();
    assert_eq!(para_color(&c(&[None, Some("#000000"), Some("#00ff00"), Some("#0000ff")])), Some("#00ff00".to_string()));
    assert_eq!(para_color(&c(&[Some("#000000"), None])), Some("#000000".to_string()));
    assert_eq!(para_color(&c(&[None, Some("#000000")])), None);
    assert_eq!(para_color(&Vec::new()), None);
}

#[test]
fn paragraph_layout_and_bold_runs() {
    let first = para_layout(0, 0, Some(Heading::H2), false);
    assert_eq!((first.page_break, first.style, first.indent), (false, Some("Heading2"), None));
    let next_page = para_layout(1, 0, None, true);
    assert_eq!((next_page.page_break, next_page.style, next_page.indent), (true, None, Some(360)));
    let inside = para_layout(1, 2, None, false);
    assert!(!inside.page_break);
    assert!(run_bold(false, Some(Heading::H1)));
    assert!(run_bold(true, None));
    assert!(!run_bold(false, None));
}
