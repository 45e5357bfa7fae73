use morpho_engine::error::Error;
use morpho_engine::format::Format;
use morpho_engine::pdfs::{
    decrypt_args, encrypt_args, is_rendered_page, is_split_page, merge_args, natural_page_key, pdftoppm_args,
    pdftotext_args, select_rendered_pages, select_split_pages, sort_pages, split_args,
};

fn strs(v: &[&str]) -> Vec<String> {
    v.iter().map(|s| s.to_string()).collect()
}

#[test]
fn poppler_commands() {
    assert_eq!(pdftotext_args("a.pdf", "a.txt", true), strs(&["-layout", "a.pdf", "a.txt"]));
    assert_eq!(pdftotext_args("a.pdf", "a.txt", false), strs(&["-raw", "a.pdf", "a.txt"]));
    assert_eq!(
        pdftoppm_args("in/doc.pdf", "out", "doc", Format::Jpg, 150),
        strs(&["-r", "150", "-jpeg", "in/doc.pdf", "out/doc"])
    );
    assert_eq!(
        pdftoppm_args("doc.pdf", "/o", "doc", Format::Png, 72),
        strs(&["-r", "72", "-png", "doc.pdf", "/o/doc"])
    );
}

#[test]
fn page_numbers() {
    assert_eq!(natural_page_key("/o/doc-12.png"), 12);
    assert_eq!(natural_page_key("/o/my-doc-3.png"), 3);
    assert_eq!(natural_page_key("/o/doc.png"), 0);
    assert_eq!(natural_page_key("/o/doc-x.png"), 0);
    assert_eq!(natural_page_key("/o/doc-+7.png"), 7);
}

#[test]
fn pages_sort_naturally_and_stably() {
    let pages = strs(&["d/doc-10.png", "d/doc-2.png", "d/b.png", "d/doc-1.png", "d/a.png"]);
    assert_eq!(
        sort_pages(pages),
        strs(&["d/b.png", "d/a.png", "d/doc-1.png", "d/doc-2.png", "d/doc-10.png"])
    );
    assert!(sort_pages(Vec::new()).is_empty());
}

#[test]
fn rendered_pages_are_selected() {
    assert!(is_rendered_page("o/doc-1.PNG", "doc", Format::Png));
    assert!(is_rendered_page("o/doc.png", "doc", Format::Png));
    assert!(!is_rendered_page("o/doc-1.png", "doc", Format::Jpg));
    assert!(is_rendered_page("o/doc-1.jpg", "doc", Format::Jpg));
    assert!(!is_rendered_page("o/docx-1.png", "doc", Format::Png));
    let files = strs(&["o/doc-2.png", "o/other.png", "o/doc-1.png", "o/doc-1.jpg", "o/doc-10.png"]);
    assert_eq!(
        select_rendered_pages(&files, "doc", Format::Png).unwrap(),
        strs(&["o/doc-1.png", "o/doc-2.png", "o/doc-10.png"])
    );
    match select_rendered_pages(&strs(&["o/other.png"]), "doc", Format::Png) {
        Err(Error::Other(m)) => assert_eq!(m, "poppler produced no pages"),
        other => panic!("unexpected {other:?}"),
    }
}

#[test]
fn split_pages_are_selected() {
    assert!(is_split_page("o/doc-3.pdf", "doc"));
    assert!(!is_split_page("o/doc.pdf", "doc"));
    assert!(!is_split_page("o/memo-1.pdf", "doc"));
    let files = strs(&["o/doc-3.pdf", "o/doc.pdf", "o/doc-1.pdf", "o/memo-2.pdf"]);
    assert_eq!(select_split_pages(&files, "doc"), strs(&["o/doc-1.pdf", "o/doc-3.pdf"]));
    assert!(select_split_pages(&strs(&["o/memo-2.pdf"]), "doc").is_empty());
}

#[test]
fn qpdf_commands() {
    assert_eq!(
        merge_args(&strs(&["a.pdf", "b.pdf"]), "m.pdf"),
        strs(&["--empty", "--pages", "a.pdf", "1-z", "b.pdf", "1-z", "--", "m.pdf"])
    );
    assert_eq!(merge_args(&Vec::new(), "m.pdf"), strs(&["--empty", "--pages", "--", "m.pdf"]));
    assert_eq!(split_args("in/a.pdf", "out", "a"), strs(&["--split-pages", "in/a.pdf", "out/a-%d.pdf"]));
    assert_eq!(
        encrypt_args("a.pdf", "b.pdf", "pw", None),
        strs(&["--encrypt", "pw", "pw", "256", "--", "a.pdf", "b.pdf"])
    );
    assert_eq!(
        encrypt_args("a.pdf", "b.pdf", "pw", Some("own")),
        strs(&["--encrypt", "pw", "own", "256", "--", "a.pdf", "b.pdf"])
    );
    assert_eq!(decrypt_args("a.pdf", "b.pdf", None), strs(&["--decrypt", "a.pdf", "b.pdf"]));
    assert_eq!(
        decrypt_args("a.pdf", "b.pdf", Some("s3")),
        strs(&["--password=s3", "--decrypt", "a.pdf", "b.pdf"])
    );
}
