//! Locate bundled conversion engines (ffmpeg, libreoffice, poppler, ...).
//!
//! Search order (the candidates are gathered by the caller):
//! 1. `MORPHO_ENGINES_DIR` env override
//! 2. `<exe dir>/engines`   (Tauri resource layout on Windows)
//! 3. `<repo>/engines`      (development checkout / CLI from source)

use vstd::prelude::*;

use crate::error::{Error, Result};
use crate::paths::{joined, on_windows, path_is_dir, path_is_file, path_join};
use crate::text::{concat, join_strings, join_with, string_of};

verus! {

#[derive(Debug, Clone)]
pub struct Engines {
    pub dir: String,
}

/// The executable file name of a tool: `.exe` is appended on Windows.
pub open spec fn exe_spec(name: Seq<char>, windows: bool) -> Seq<char> {
    if windows {
        name + ".exe"@
    } else {
        name
    }
}

/// The path of a tool below the engines directory: `<sub>/<exe name>`.
pub open spec fn tool_rel(sub: Seq<char>, name: Seq<char>, windows: bool) -> Seq<char> {
    sub + "/"@ + exe_spec(name, windows)
}

/// The executable file name of a tool for the given platform.
pub fn exe_name(name: &str, windows: bool) -> (r: String)
    ensures
        r@ == exe_spec(name@, windows),
{
    if windows {
        concat(name, ".exe")
    } else {
        string_of(name)
    }
}

/// The executable file name of a tool on this machine.
fn exe(name: &str) -> (r: String)
    ensures
        exists|w: bool| r@ == exe_spec(name@, w),
{
    let w = on_windows();
    exe_name(name, w)
}

/// The path of a tool below the engines directory for the given platform.
fn tool_for(sub: &str, name: &str, windows: bool) -> (r: String)
    ensures
        r@ == tool_rel(sub@, name@, windows),
{
    let mut r = concat(sub, "/");
    let e = exe_name(name, windows);
    r.append(e.as_str());
    r
}

fn tool(sub: &str, name: &str) -> (r: String)
    ensures
        exists|w: bool| r@ == tool_rel(sub@, name@, w),
{
    let mut r = concat(sub, "/");
    let e = exe(name);
    r.append(e.as_str());
    proof {
        let w = choose|w: bool| e@ == exe_spec(name@, w);
        assert(r@ == tool_rel(sub@, name@, w));
    }
    r
}

/// An `EngineMissing` error for `what`, looked for under `dir`.
pub open spec fn missing(e: Error, what: Seq<char>, dir: Seq<char>) -> bool {
    e matches Error::EngineMissing(a, b) && a@ == what && b@ == dir
}

/// The engine-availability table: one row per engine, in display order.
pub open spec fn status_names() -> Seq<Seq<char>> {
    seq!["ffmpeg"@, "libreoffice"@, "poppler"@, "tesseract"@, "pandoc"@, "qpdf"@]
}

/// Which LibreOffice program is used, given whether the launcher and
/// `soffice.bin` were found: the launcher first, `soffice.bin` only without it.
pub open spec fn soffice_choice(dir: Seq<char>, windows: bool, launcher: bool, bin: bool) -> Option<Seq<char>> {
    if launcher {
        Some(joined(dir, tool_rel("libreoffice/program"@, "soffice"@, windows)))
    } else if bin {
        Some(joined(dir, tool_rel("libreoffice/program"@, "soffice.bin"@, windows)))
    } else {
        None
    }
}

/// The engines a lookup found, if it found any.
pub open spec fn found_engines(r: Result<Engines>) -> Option<Engines> {
    match r {
        Ok(e) => Some(e),
        Err(_) => None,
    }
}

/// `r` is what asking the candidates in order gave, when the disk answered
/// `found` (whether each is a directory): the asking stops at the first yes,
/// and `r` is that candidate, or nothing when all answers were no.
pub open spec fn asked_in_order(candidates: Seq<String>, found: Seq<bool>, r: Option<Engines>) -> bool {
    &&& found.len() <= candidates.len()
    &&& forall|k: int| 0 <= k < found.len() - 1 ==> !(#[trigger] found[k])
    &&& found.len() < candidates.len() ==> found.len() > 0 && found.last()
    &&& match r {
        Some(e) => exists|i: int| 0 <= i < found.len() && found[i]
            && (forall|k: int| 0 <= k < i ==> !(#[trigger] found[k]))
            && e.dir@ == (#[trigger] candidates[i])@,
        None => forall|k: int| 0 <= k < found.len() ==> !(#[trigger] found[k]),
    }
}

impl Engines {
    /// The engines directory chosen from what the disk said of the
    /// candidates, in order: the first candidate reported as a directory
    /// (only the candidates with an answer count).
    pub fn first_existing(candidates: &Vec<String>, found: &Vec<bool>) -> (r: Option<Engines>)
        ensures
            match r {
                Some(e) => exists|i: int| 0 <= i < candidates@.len() && i < found@.len() && found@[i]
                    && (forall|k: int| 0 <= k < i ==> !(#[trigger] found@[k]))
                    && e.dir@ == (#[trigger] candidates@[i])@,
                None => forall|k: int| 0 <= k < candidates@.len() && k < found@.len() ==> !(#[trigger] found@[k]),
            },
    {
        let n = if candidates.len() < found.len() { candidates.len() } else { found.len() };
        let mut i: usize = 0;
        while i < n
            invariant
                n <= candidates@.len(),
                n <= found@.len(),
                n == candidates@.len() || n == found@.len(),
                i <= n,
                forall|k: int| 0 <= k < i ==> !(#[trigger] found@[k]),
            decreases n - i,
        {
            if found[i] {
                let e = Engines { dir: string_of(candidates[i].as_str()) };
                assert(e.dir@ == candidates@[i as int]@);
                return Some(e);
            }
            i = i + 1;
        }
        None
    }

    /// The first candidate directory that exists, as the engines directory.
    /// The candidates are asked in order until one is a directory; what the
    /// disk answers is its own at the moment of the call.
    pub fn discover(candidates: &Vec<String>) -> (r: Option<Engines>)
        ensures
            r is Some ==> exists|i: int| 0 <= i < candidates@.len() && r->0.dir@ == #[trigger] candidates@[i]@,
            exists|found: Seq<bool>| #[trigger] asked_in_order(candidates@, found, r),
    {
        let n = candidates.len();
        let mut found: Vec<bool> = Vec::new();
        let mut i: usize = 0;
        while i < n
            invariant_except_break
                i <= n,
                found@.len() == i,
                forall|k: int| 0 <= k < i ==> !(#[trigger] found@[k]),
            invariant
                n == candidates@.len(),
            ensures
                found@.len() <= n,
                forall|k: int| 0 <= k < found@.len() - 1 ==> !(#[trigger] found@[k]),
                found@.len() < n ==> found@.len() > 0 && found@.last(),
            decreases n - i,
        {
            let is_dir = path_is_dir(candidates[i].as_str());
            found.push(is_dir);
            if is_dir {
                break;
            }
            i = i + 1;
        }
        let r = Engines::first_existing(candidates, &found);
        proof {
            if r is Some {
                let e = r->0;
                {
                    let i = choose|i: int| 0 <= i < candidates@.len() && i < found@.len() && found@[i]
                        && (forall|k: int| 0 <= k < i ==> !(#[trigger] found@[k]))
                        && e.dir@ == (#[trigger] candidates@[i])@;
                    assert(0 <= i < found@.len() && found@[i]);
                }
            }
            assert(asked_in_order(candidates@, found@, r));
        }
        r
    }

    /// Like [`discover`] but fails with a precise error listing the searched
    /// directories (all candidates, in order, separated by `, `).
    pub fn discover_or_err(candidates: &Vec<String>) -> (r: Result<Engines>)
        ensures
            exists|found: Seq<bool>| #[trigger] asked_in_order(candidates@, found, found_engines(r)),
            r is Err ==> missing(r->Err_0, "any"@, join_with(candidates.deep_view(), ", "@)),
    {
        match Engines::discover(candidates) {
            Some(e) => Ok(e),
            None => Err(Error::EngineMissing(string_of("any"), join_strings(candidates, ", "))),
        }
    }

    /// `<dir>/<rel>` when it is a file.
    pub fn optional(&self, rel: &str) -> (r: Option<String>)
        ensures
            r is Some ==> r->0@ == joined(self.dir@, rel@),
    {
        let p = path_join(self.dir.as_str(), rel);
        if path_is_file(p.as_str()) {
            Some(p)
        } else {
            None
        }
    }

    /// `<dir>/<rel>`, or `EngineMissing(rel, dir)` when it is not a file.
    pub fn require(&self, rel: &str) -> (r: Result<String>)
        ensures
            r is Ok ==> r->Ok_0@ == joined(self.dir@, rel@),
            r is Err ==> missing(r->Err_0, rel@, self.dir@),
    {
        match self.optional(rel) {
            Some(p) => Ok(p),
            None => Err(Error::EngineMissing(string_of(rel), string_of(self.dir.as_str()))),
        }
    }

    pub fn ffmpeg(&self) -> (r: Result<String>)
        ensures
            exists|w: bool| #![trigger tool_rel("ffmpeg"@, "ffmpeg"@, w)] {
                let rel = tool_rel("ffmpeg"@, "ffmpeg"@, w);
                &&& r is Ok ==> r->Ok_0@ == joined(self.dir@, rel)
                &&& r is Err ==> missing(r->Err_0, rel, self.dir@)
            },
    {
        let rel = tool("ffmpeg", "ffmpeg");
        self.require(rel.as_str())
    }

    pub fn ffprobe(&self) -> (r: Result<String>)
        ensures
            exists|w: bool| #![trigger tool_rel("ffmpeg"@, "ffprobe"@, w)] {
                let rel = tool_rel("ffmpeg"@, "ffprobe"@, w);
                &&& r is Ok ==> r->Ok_0@ == joined(self.dir@, rel)
                &&& r is Err ==> missing(r->Err_0, rel, self.dir@)
            },
    {
        let rel = tool("ffmpeg", "ffprobe");
        self.require(rel.as_str())
    }

    /// The LibreOffice program for the given platform and the disk's answers
    /// on whether the launcher and `soffice.bin` are there.
    pub fn soffice_pick(&self, windows: bool, launcher: bool, bin: bool) -> (r: Option<String>)
        ensures
            r.deep_view() == soffice_choice(self.dir@, windows, launcher, bin),
    {
        if launcher {
            let rel = tool_for("libreoffice/program", "soffice", windows);
            Some(path_join(self.dir.as_str(), rel.as_str()))
        } else if bin {
            let rel = tool_for("libreoffice/program", "soffice.bin", windows);
            Some(path_join(self.dir.as_str(), rel.as_str()))
        } else {
            None
        }
    }

    /// The LibreOffice launcher, falling back to `soffice.bin` only when the
    /// launcher is not there (`soffice.bin` is then asked about). Whether
    /// each is there is the disk's answer.
    pub fn soffice(&self) -> (r: Option<String>)
        ensures
            r is Some ==> exists|w: bool|
                r->0@ == joined(self.dir@, tool_rel("libreoffice/program"@, "soffice"@, w))
                || r->0@ == joined(self.dir@, tool_rel("libreoffice/program"@, "soffice.bin"@, w)),
            exists|w: bool, launcher: bool, bin: bool|
                r.deep_view() == #[trigger] soffice_choice(self.dir@, w, launcher, bin),
    {
        let w = on_windows();
        let first = path_join(self.dir.as_str(), tool_for("libreoffice/program", "soffice", w).as_str());
        if path_is_file(first.as_str()) {
            return self.soffice_pick(w, true, false);
        }
        let second = path_join(self.dir.as_str(), tool_for("libreoffice/program", "soffice.bin", w).as_str());
        let bin = path_is_file(second.as_str());
        self.soffice_pick(w, false, bin)
    }

    pub fn pdftoppm(&self) -> (r: Option<String>)
        ensures
            r is Some ==> exists|w: bool| r->0@ == joined(self.dir@, tool_rel("poppler"@, "pdftoppm"@, w)),
    {
        let rel = tool("poppler", "pdftoppm");
        self.optional(rel.as_str())
    }

    pub fn pdftotext(&self) -> (r: Option<String>)
        ensures
            r is Some ==> exists|w: bool| r->0@ == joined(self.dir@, tool_rel("poppler"@, "pdftotext"@, w)),
    {
        let rel = tool("poppler", "pdftotext");
        self.optional(rel.as_str())
    }

    pub fn tesseract(&self) -> (r: Option<String>)
        ensures
            r is Some ==> exists|w: bool| r->0@ == joined(self.dir@, tool_rel("tesseract"@, "tesseract"@, w)),
    {
        let rel = tool("tesseract", "tesseract");
        self.optional(rel.as_str())
    }

    /// The tesseract language data directory, when it is there.
    pub fn tessdata(&self) -> (r: Option<String>)
        ensures
            r is Some ==> r->0@ == joined(self.dir@, "tesseract/tessdata"@),
    {
        let dir = path_join(self.dir.as_str(), "tesseract/tessdata");
        if path_is_dir(dir.as_str()) {
            Some(dir)
        } else {
            None
        }
    }

    pub fn pandoc(&self) -> (r: Option<String>)
        ensures
            r is Some ==> exists|w: bool| r->0@ == joined(self.dir@, tool_rel("pandoc"@, "pandoc"@, w)),
    {
        let rel = tool("pandoc", "pandoc");
        self.optional(rel.as_str())
    }

    pub fn qpdf(&self) -> (r: Option<String>)
        ensures
            r is Some ==> exists|w: bool| r->0@ == joined(self.dir@, tool_rel("qpdf"@, "qpdf"@, w)),
    {
        let rel = tool("qpdf", "qpdf");
        self.optional(rel.as_str())
    }

    /// The availability table from the availability of each engine.
    pub fn status_table(
        ffmpeg: bool,
        libreoffice: bool,
        poppler: bool,
        tesseract: bool,
        pandoc: bool,
        qpdf: bool,
    ) -> (r: Vec<(String, bool)>)
        ensures
            r@.len() == 6,
            forall|i: int| 0 <= i < 6 ==> #[trigger] r@[i].0@ == status_names()[i],
            r@[0].1 == ffmpeg,
            r@[1].1 == libreoffice,
            r@[2].1 == poppler,
            r@[3].1 == tesseract,
            r@[4].1 == pandoc,
            r@[5].1 == qpdf,
    {
        let r = vec![
            (string_of("ffmpeg"), ffmpeg),
            (string_of("libreoffice"), libreoffice),
            (string_of("poppler"), poppler),
            (string_of("tesseract"), tesseract),
            (string_of("pandoc"), pandoc),
            (string_of("qpdf"), qpdf),
        ];
        assert forall|i: int| 0 <= i < 6 implies #[trigger] r@[i].0@ == status_names()[i] by {}
        r
    }

    /// Per-engine availability report for the UI: poppler counts as present
    /// only when both of its tools are.
    pub fn status(&self) -> (r: Vec<(String, bool)>)
        ensures
            r@.len() == 6,
            forall|i: int| 0 <= i < 6 ==> #[trigger] r@[i].0@ == status_names()[i],
    {
        let ff = self.ffmpeg().is_ok();
        let lo = self.soffice().is_some();
        let pp = self.pdftoppm().is_some() && self.pdftotext().is_some();
        let te = self.tesseract().is_some();
        let pa = self.pandoc().is_some();
        let qp = self.qpdf().is_some();
        Engines::status_table(ff, lo, pp, te, pa, qp)
    }
}

} // verus!
