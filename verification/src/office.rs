//! LibreOffice headless bridge: office docs, spreadsheets, slides, images -> pdf.
//!
//! One fresh user profile per invocation keeps runs isolated; the command
//! line and the names of the produced files are computed here.

use vstd::prelude::*;

use crate::error::{Error, Result};
use crate::format::Format;
use crate::paths::{joined, path_file_stem, path_join, path_with_extension, stem_of, with_ext};
use crate::text::{concat, extend_args, push_arg, push_owned, replace_char, replace_char_seq, string_of};

verus! {

/// A profile directory as a `file:///` URL with forward slashes.
pub open spec fn file_url(p: Seq<char>) -> Seq<char> {
    "file:///"@ + replace_char_seq(p, '\\', '/')
}

/// A profile directory as a `file:///` URL with forward slashes.
pub fn path_to_file_url(p: &str) -> (r: String)
    ensures
        r@ == file_url(p@),
{
    let s = replace_char(p, '\\', '/');
    concat("file:///", s.as_str())
}

/// soffice's arguments: headless conversion of every input into `out_dir`
/// with a private profile.
pub open spec fn soffice_args_spec(profile_url: Seq<char>, target: Format, out_dir: Seq<char>, inputs: Seq<Seq<char>>) -> Seq<Seq<char>> {
    seq![
        "--headless"@, "--norestore"@, "--nolockcheck"@, "--nodefault"@, "--nologo"@,
        "-env:UserInstallation="@ + profile_url,
        "--convert-to"@, target.ext(),
        "--outdir"@, out_dir,
    ] + inputs
}

/// A profile URL is `file:///` and the path with every backslash turned
/// into a forward slash, every other character kept in place.
pub proof fn lemma_file_url_forward_slashes(p: Seq<char>)
    ensures
        file_url(p).len() == p.len() + 8,
        file_url(p).take(8) == "file:///"@,
        forall|i: int| 0 <= i < p.len() ==> #[trigger] file_url(p)[i + 8] == if p[i] == '\\' { '/' } else { p[i] },
        forall|i: int| 0 <= i < file_url(p).len() ==> #[trigger] file_url(p)[i] != '\\',
{
    reveal_strlit("file:///");
    assert(file_url(p).take(8) =~= "file:///"@);
    assert forall|i: int| 0 <= i < file_url(p).len() implies #[trigger] file_url(p)[i] != '\\' by {
        if i >= 8 {
            assert(file_url(p)[i] == replace_char_seq(p, '\\', '/')[i - 8]);
        }
    }
}

/// soffice is asked to convert every input, in order, to the target's
/// format into the output directory, without a window, with the profile
/// given.
pub proof fn lemma_soffice_converts_every_input(profile_url: Seq<char>, target: Format, out_dir: Seq<char>, inputs: Seq<Seq<char>>)
    ensures
        ({
            let a = soffice_args_spec(profile_url, target, out_dir, inputs);
            &&& a.len() == inputs.len() + 10
            &&& a[0] == "--headless"@
            &&& a[5] == "-env:UserInstallation="@ + profile_url
            &&& a[6] == "--convert-to"@
            &&& a[7] == target.ext()
            &&& a[8] == "--outdir"@
            &&& a[9] == out_dir
            &&& a.skip(10) == inputs
        }),
{
    let a = soffice_args_spec(profile_url, target, out_dir, inputs);
    assert(a.skip(10) =~= inputs);
}

/// soffice's arguments (the outdir in space form: the console launcher
/// rejects `--outdir=<path>`).
pub fn soffice_args(profile_url: &str, target: Format, out_dir: &str, inputs: &Vec<String>) -> (r: Vec<String>)
    ensures
        r.deep_view() == soffice_args_spec(profile_url@, target, out_dir@, inputs.deep_view()),
{
    let mut v: Vec<String> = Vec::new();
    push_arg(&mut v, "--headless");
    push_arg(&mut v, "--norestore");
    push_arg(&mut v, "--nolockcheck");
    push_arg(&mut v, "--nodefault");
    push_arg(&mut v, "--nologo");
    push_owned(&mut v, concat("-env:UserInstallation=", profile_url));
    push_arg(&mut v, "--convert-to");
    push_arg(&mut v, target.extension());
    push_arg(&mut v, "--outdir");
    push_arg(&mut v, out_dir);
    let copies = inputs.clone();
    extend_args(&mut v, copies);
    assert(v.deep_view() =~= soffice_args_spec(profile_url@, target, out_dir@, inputs.deep_view()));
    v
}

/// Where soffice writes the conversion of `input`: its stem in `out_dir`
/// with the target's extension.
pub open spec fn produced_spec(out_dir: Seq<char>, input: Seq<char>, target: Format) -> Seq<char> {
    with_ext(joined(out_dir, match stem_of(input) {
        Some(s) => s,
        None => Seq::empty(),
    }), target.ext())
}

/// Where soffice writes the conversion of `input`.
pub fn produced_path(out_dir: &str, input: &str, target: Format) -> (r: String)
    ensures
        r@ == produced_spec(out_dir@, input@, target),
{
    let stem = match path_file_stem(input) {
        Some(s) => s,
        None => String::new(),
    };
    let base = path_join(out_dir, stem.as_str());
    proof {
        crate::format::lemma_extension_roundtrip(target);
    }
    path_with_extension(base.as_str(), target.extension())
}

} // verus!

verus! {

/// Where soffice writes each input's conversion.
pub fn produced_paths(out_dir: &str, inputs: &Vec<String>, target: Format) -> (r: Vec<String>)
    ensures
        r@.len() == inputs@.len(),
        forall|i: int| 0 <= i < inputs@.len() ==> (#[trigger] r@[i])@ == produced_spec(out_dir@, inputs@[i]@, target),
{
    let n = inputs.len();
    let mut r: Vec<String> = Vec::new();
    let mut i: usize = 0;
    while i < n
        invariant
            n == inputs@.len(),
            i <= n,
            r@.len() == i,
            forall|j: int| 0 <= j < i ==> (#[trigger] r@[j])@ == produced_spec(out_dir@, inputs@[j]@, target),
        decreases n - i,
    {
        r.push(produced_path(out_dir, inputs[i].as_str(), target));
        i = i + 1;
    }
    r
}

/// The paths among the first `n` that the disk reported there.
pub open spec fn kept_upto(paths: Seq<Seq<char>>, found: Seq<bool>, n: int) -> Seq<Seq<char>>
    decreases n,
{
    if n <= 0 {
        Seq::empty()
    } else {
        kept_upto(paths, found, n - 1) + if n - 1 < found.len() && found[n - 1] {
            seq![paths[n - 1]]
        } else {
            Seq::empty()
        }
    }
}

/// The log soffice left: its stderr, or its stdout when stderr is empty.
pub open spec fn soffice_log(stderr: Seq<char>, stdout: Seq<char>) -> Seq<char> {
    if stderr.len() == 0 { stdout } else { stderr }
}

/// How a soffice run ended, given whether each produced path is there: the
/// paths that are, in input order, or, when none is, a failure with the
/// exit code (-1 when it has none) and soffice's log.
pub fn soffice_outcome(paths: &Vec<String>, found: &Vec<bool>, code: Option<i32>, stderr: &str, stdout: &str) -> (r: Result<Vec<String>>)
    ensures
        kept_upto(paths.deep_view(), found@, paths@.len() as int).len() > 0 ==> (r matches Ok(v)
            && v.deep_view() == kept_upto(paths.deep_view(), found@, paths@.len() as int)),
        kept_upto(paths.deep_view(), found@, paths@.len() as int).len() == 0 ==> (r matches Err(
            Error::ProcessFailed { engine, code: c, stderr: log })
            && engine@ == "libreoffice"@
            && c as int == (match code {
                Some(x) => x as int,
                None => -1,
            })
            && log@ == soffice_log(stderr@, stdout@)),
{
    let ghost pv = paths.deep_view();
    let n = paths.len();
    let mut kept: Vec<String> = Vec::new();
    let mut i: usize = 0;
    while i < n
        invariant
            n == paths@.len(),
            pv == paths.deep_view(),
            i <= n,
            kept.deep_view() == kept_upto(pv, found@, i as int),
        decreases n - i,
    {
        let ghost before = kept.deep_view();
        if i < found.len() && found[i] {
            kept.push(string_of(paths[i].as_str()));
            assert(pv[i as int] == paths@[i as int]@);
            assert(kept.deep_view() =~= kept_upto(pv, found@, i + 1));
        } else {
            assert(kept.deep_view() =~= kept_upto(pv, found@, i + 1));
        }
        i = i + 1;
    }
    if kept.len() == 0 {
        let c: i32 = match code {
            Some(x) => x,
            None => -1,
        };
        let log = if stderr.unicode_len() == 0 { string_of(stdout) } else { string_of(stderr) };
        return Err(Error::ProcessFailed { engine: string_of("libreoffice"), code: c, stderr: log });
    }
    Ok(kept)
}

} // verus!
