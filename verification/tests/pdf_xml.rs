use morpho_engine::pdfword::xml::image_path;
use morpho_engine::error::Error;
use morpho_engine::pdfword::xml::{parse_events, parse_step, parse_xml, DocModel, ParseState, XmlEvent};

const SAMPLE: &str = r##"<?xml version="1.0" encoding="UTF-8"?>
<pdf2xml>
<page number="1" top="0" left="0" height="1188" width="918">
<fontspec id="0" size="18" family="Arial-BoldMT" color="#000000"/>
<fontspec id="1" size="12" family="Times" color="#ff0000"/>
<text top="100" left="72" width="200" height="20" font="0"><b>Title</b></text>
<text top="130" LEFT="72" width="300" height="15" font="1">Plain <i>ital</i> end</text>
<text top="150" left="72" width="10" height="15" font="1">   </text>
<image top="200" left="72" width="100" height="50" src="doc-1_1.png"/>
</page>
<page number="2" height="1188" width="918">
<text top="10" left="10" width="5" height="5" font="0">x</text>
</page>
</pdf2xml>
"##;

fn runs(c: &morpho_engine::pdfword::xml::ChunkModel) -> Vec<(String, bool, bool)> {
    c.runs.iter().map(|r| (r.text.clone(), r.bold, r.italic)).collect()
}

fn s(v: &str) -> Option<String> {
    Some(v.to_string())
}

#[test]
fn reads_pages_chunks_runs_and_images() {
    let d: DocModel = parse_xml(SAMPLE.as_bytes()).unwrap();
    assert_eq!(d.pages.len(), 2);
    let p = &d.pages[0];
    assert_eq!((p.width.clone(), p.height.clone()), (s("918"), s("1188")));
    assert_eq!(p.chunks.len(), 2);
    let c0 = &p.chunks[0];
    assert_eq!((c0.left.clone(), c0.top.clone(), c0.size.clone(), c0.color.clone()), (s("72"), s("100"), s("18"), s("#000000")));
    assert_eq!(runs(c0), vec![("Title".to_string(), true, false)]);
    let c1 = &p.chunks[1];
    assert_eq!(c1.left, s("72"));
    assert_eq!((c1.size.clone(), c1.color.clone()), (s("12"), s("#ff0000")));
    assert_eq!(
        runs(c1),
        vec![("Plain ".to_string(), false, false), ("ital".to_string(), false, true), (" end".to_string(), false, false)]
    );
    assert_eq!(p.images.len(), 1);
    assert_eq!(p.images[0].src, "doc-1_1.png");
    assert_eq!(p.images[0].width, s("100"));
    // font specs belong to their page
    let c = &d.pages[1].chunks[0];
    assert_eq!((c.size.clone(), c.color.clone()), (None, None));
    assert_eq!(runs(c), vec![("x".to_string(), false, false)]);
}

#[test]
fn malformed_xml_fails() {
    match parse_xml(b"<page><text></page>") {
        Err(Error::Other(m)) => assert!(m.starts_with("pdftohtml xml parse: "), "{m}"),
        other => panic!("unexpected {other:?}"),
    }
    assert!(parse_xml(b"").unwrap().pages.is_empty());
}

fn attrs(v: &[(&str, &str)]) -> Vec<(String, String)> {
    v.iter().map(|(k, v)| (k.to_string(), v.to_string())).collect()
}

#[test]
fn steps_one_event_at_a_time() {
    let empty = ParseState { doc: DocModel { pages: Vec::new() }, fonts: Vec::new(), open: None };
    // chunks and images before any page are dropped
    let st = parse_step(empty, XmlEvent::Empty { name: "IMAGE".into(), attrs: attrs(&[("src", "a.png")]) });
    assert!(st.doc.pages.is_empty());
    let st = parse_step(st, XmlEvent::Start { name: "Page".into(), attrs: attrs(&[("width", "10")]) });
    let st = parse_step(st, XmlEvent::Empty {
        name: "fontspec".into(),
        attrs: attrs(&[("id", "7"), ("family", "ZapfDingbats"), ("size", "9")]),
    });
    let st = parse_step(st, XmlEvent::Empty { name: "fontspec".into(), attrs: attrs(&[("id", "7"), ("family", "Symbol")]) });
    assert_eq!(st.fonts.len(), 2);
    // a self-closing chunk in a bullet font becomes a bullet; the later spec wins
    let st = parse_step(st, XmlEvent::Empty { name: "text".into(), attrs: attrs(&[("font", "7"), ("left", "3")]) });
    let c = &st.doc.pages[0].chunks[0];
    assert_eq!(runs(c), vec![("\u{2022}".to_string(), false, false)]);
    assert_eq!((c.size.clone(), c.left.clone()), (None, s("3")));
    let st = parse_step(st, XmlEvent::Start { name: "text".into(), attrs: attrs(&[]) });
    let st = parse_step(st, XmlEvent::Text("a".into()));
    let st = parse_step(st, XmlEvent::Other);
    let st = parse_step(st, XmlEvent::Text("b".into()));
    let st = parse_step(st, XmlEvent::End { name: "TEXT".into() });
    assert!(st.open.is_none());
    assert_eq!(runs(&st.doc.pages[0].chunks[1]), vec![("ab".to_string(), false, false)]);
    let d = parse_events(vec![XmlEvent::Start { name: "page".into(), attrs: Vec::new() }, XmlEvent::Eof]);
    assert_eq!(d.pages.len(), 1);
    assert_eq!(d.pages[0].width, None);
}

#[test]
fn a_chunk_keeps_its_plain_and_bold_runs() {
    let xml = "<pdf2xml><page width='918' height='1188'><fontspec id='0' size='18' family='Times' color='#000000'/>\
<text top='150' left='75' width='90' height='21' font='0'>Hi <b>there</b></text></page></pdf2xml>";
    let d = parse_xml(xml.as_bytes()).unwrap();
    assert_eq!(d.pages.len(), 1);
    assert!(d.pages[0].images.is_empty());
    assert_eq!(d.pages[0].chunks.len(), 1);
    let c = &d.pages[0].chunks[0];
    assert_eq!((c.left.clone(), c.top.clone(), c.width.clone(), c.height.clone()), (s("75"), s("150"), s("90"), s("21")));
    assert_eq!((c.size.clone(), c.color.clone()), (s("18"), s("#000000")));
    assert_eq!(runs(c), vec![("Hi ".to_string(), false, false), ("there".to_string(), true, false)]);
}

#[test]
fn blank_text_in_a_dingbat_font_is_a_bullet() {
    let xml = "<pdf2xml><page><fontspec id='1' size='12' family='ZapfDingbats'/><fontspec id='2' size='12' family='Times'/>\
<text top='0' left='0' width='6' height='12' font='1'> </text><text top='0' left='9' width='6' height='12' font='2'> </text></page></pdf2xml>";
    let d = parse_xml(xml.as_bytes()).unwrap();
    assert_eq!(d.pages[0].chunks.len(), 1);
    let c = &d.pages[0].chunks[0];
    assert_eq!((c.left.clone(), c.size.clone()), (s("0"), s("12")));
    assert_eq!(runs(c), vec![("\u{2022}".to_string(), false, false)]);
}

#[test]
fn image_paths_resolve_against_the_image_dir() {
    let joined = image_path("doc-1_1.png", "/tmp/imgs");
    assert_eq!(std::path::PathBuf::from(&joined), std::path::Path::new("/tmp/imgs").join("doc-1_1.png"));
    assert_eq!(image_path("/abs/pic.png", "/tmp/imgs"), "/abs/pic.png");
}
