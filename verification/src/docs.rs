//! Pandoc bridge: markdown / html / txt / epub / docx / odt / rtf family.

use vstd::prelude::*;

use crate::format::Format;
use crate::paths::{path_file_stem, stem_of};
use crate::text::{concat, push_arg, push_owned, string_of};

verus! {

/// Pandoc's name for a format it writes.
pub open spec fn pandoc_writer(f: Format) -> Option<Seq<char>> {
    match f {
        Format::Md => Some("markdown"@),
        Format::Html => Some("html"@),
        Format::Txt => Some("plain"@),
        Format::Rtf => Some("rtf"@),
        Format::Epub => Some("epub"@),
        Format::Docx => Some("docx"@),
        Format::Odt => Some("odt"@),
        _ => None,
    }
}

fn pandoc_name(f: Format) -> (r: Option<&'static str>)
    ensures
        match pandoc_writer(f) {
            Some(n) => r is Some && r->0@ == n,
            None => r is None,
        },
{
    match f {
        Format::Md => Some("markdown"),
        Format::Html => Some("html"),
        Format::Txt => Some("plain"),
        Format::Rtf => Some("rtf"),
        Format::Epub => Some("epub"),
        Format::Docx => Some("docx"),
        Format::Odt => Some("odt"),
        _ => None,
    }
}

/// The epub title: the source file's stem, or `Document`.
pub open spec fn epub_title(src: Seq<char>) -> Seq<char> {
    match stem_of(src) {
        Some(s) => s,
        None => "Document"@,
    }
}

/// Pandoc's arguments for writing `target`: html and epub are standalone,
/// html carries its images inside, epub gets a title, the reader is
/// inferred from the source extension.
pub open spec fn pandoc_args_spec(src: Seq<char>, target: Format, out_file: Seq<char>) -> Option<Seq<Seq<char>>> {
    match pandoc_writer(target) {
        Some(to) => Some(
            seq!["-t"@, to]
            + (if target == Format::Html || target == Format::Epub { seq!["-s"@] } else { seq![] })
            + (if target == Format::Html { seq!["--embed-resources"@] } else { seq![] })
            + (if target == Format::Epub { seq!["--metadata"@, "title="@ + epub_title(src)] } else { seq![] })
            + seq!["-o"@, out_file, src]
        ),
        None => None,
    }
}

/// Convert `src` to `target` (must be a pandoc-supported family) into `out_file`.
pub fn convert_args(src: &str, target: Format, out_file: &str) -> (r: Option<Vec<String>>)
    ensures
        match pandoc_args_spec(src@, target, out_file@) {
            Some(a) => r is Some && r->0.deep_view() == a,
            None => r is None,
        },
{
    let to = match pandoc_name(target) {
        Some(t) => t,
        None => return None,
    };
    let mut args: Vec<String> = Vec::new();
    push_arg(&mut args, "-t");
    push_arg(&mut args, to);
    // pandoc infers the reader from the source extension
    if matches!(target, Format::Html | Format::Epub) {
        push_arg(&mut args, "-s"); // standalone document
    }
    if target == Format::Html {
        // images are embedded, so the page shows them wherever it is opened
        push_arg(&mut args, "--embed-resources");
    }
    if target == Format::Epub {
        let title = match path_file_stem(src) {
            Some(s) => s,
            None => string_of("Document"),
        };
        push_arg(&mut args, "--metadata");
        push_owned(&mut args, concat("title=", title.as_str()));
    }
    push_arg(&mut args, "-o");
    push_arg(&mut args, out_file);
    push_arg(&mut args, src);
    assert(args.deep_view() =~= pandoc_args_spec(src@, target, out_file@)->0);
    Some(args)
}

/// Pandoc is asked to write the target's own format: the writer after `-t`
/// is the target's extension (pandoc calls markdown `markdown` and plain
/// text `plain`); the command ends with `-o`, the output file and the
/// source; html and epub are written standalone, html with its images
/// embedded and epub titled by the source's stem (`Document` without
/// one); pandoc is asked for exactly the formats it writes here (md, html,
/// txt, rtf, epub, docx, odt).
pub proof fn lemma_pandoc_writes_the_target(src: Seq<char>, target: Format, out_file: Seq<char>)
    ensures
        pandoc_args_spec(src, target, out_file) is Some <==> (target == Format::Md || target == Format::Html
            || target == Format::Txt || target == Format::Rtf || target == Format::Epub
            || target == Format::Docx || target == Format::Odt),
        pandoc_args_spec(src, target, out_file) matches Some(a) ==> ({
            &&& a.len() >= 5
            &&& a[0] == "-t"@
            &&& a[1] == (if target == Format::Md {
                "markdown"@
            } else if target == Format::Txt {
                "plain"@
            } else {
                target.ext()
            })
            &&& a[a.len() - 3] == "-o"@
            &&& a[a.len() - 2] == out_file
            &&& a[a.len() - 1] == src
            &&& (a[2] == "-s"@ <==> (target == Format::Html || target == Format::Epub))
            &&& (target == Format::Html ==> a[3] == "--embed-resources"@)
            &&& (target == Format::Epub ==> a[3] == "--metadata"@ && a[4] == "title="@ + match stem_of(src) {
                Some(stem) => stem,
                None => "Document"@,
            })
        }),
{
    reveal_strlit("-s");
    reveal_strlit("-o");
    reveal_strlit("--embed-resources");
    reveal_strlit("--metadata");
    let a = pandoc_args_spec(src, target, out_file);
    match target {
        Format::Html => {
            assert(a->0 =~= seq!["-t"@, "html"@, "-s"@, "--embed-resources"@, "-o"@, out_file, src]);
        },
        Format::Epub => {
            assert(a->0 =~= seq!["-t"@, "epub"@, "-s"@, "--metadata"@, "title="@ + epub_title(src), "-o"@, out_file, src]);
        },
        Format::Md | Format::Txt | Format::Rtf | Format::Docx | Format::Odt => {
            assert(a->0 =~= seq!["-t"@, pandoc_writer(target)->0, "-o"@, out_file, src]);
            assert("-o"@[1] != "-s"@[1]);
        },
        _ => {},
    }
}

} // verus!
