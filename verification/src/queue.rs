//! Job bookkeeping: what a conversion job runs, where its output goes, and
//! the format matrix the UI shows. Running the engines is the caller's part.

use vstd::prelude::*;

use crate::av::AvOptions;
use crate::docs::{convert_args, pandoc_args_spec};
use crate::engines::{missing, tool_rel, Engines};
use crate::error::{Error, Result};
use crate::format::{
    all_formats, categories, format_of_ext, formats_in_category, formats_of, formats_upto,
    lemma_category_listing, Category, Format,
};
use crate::ocr::{detect_langs, tesseract_args, tesseract_args_spec};
use crate::paths::{
    ext_of, joined, parent_of, path_exists, path_extension, path_file_stem, path_join,
    path_parent, stem_of,
};
use crate::pdfs::{pdftoppm_args, pdftoppm_args_spec, pdftotext_args, pdftotext_args_spec};
use crate::route::{plan, route, targets, targets_for, Pipeline, Plan};
use crate::text::{concat, dec, lower_seq, push_dec, string_of};

verus! {

#[derive(Debug, Clone)]
pub struct JobOptions {
    pub target: Format,
    pub output_dir: Option<String>,
    pub quality: Option<u8>,
    /// "wechat" | "web" | "archive" (video only)
    pub preset: Option<String>,
}

/// The directory a job writes into: the chosen one, else the source's own.
pub open spec fn output_dir_spec(source: Seq<char>, output_dir: Option<Seq<char>>) -> Seq<char> {
    match output_dir {
        Some(d) => d,
        None => match parent_of(source) {
            Some(p) => p,
            None => Seq::empty(),
        },
    }
}

/// The name stem of a job's output: the source's stem, else `output`.
pub open spec fn output_stem(source: Seq<char>) -> Seq<char> {
    match stem_of(source) {
        Some(s) => s,
        None => "output"@,
    }
}

/// The `n`-th output name tried: `name.ext`, then `name (2).ext`, `name (3).ext`...
pub open spec fn output_candidate(dir: Seq<char>, stem: Seq<char>, ext: Seq<char>, n: nat) -> Seq<char> {
    if n < 2 {
        joined(dir, stem + "."@ + ext)
    } else {
        joined(dir, stem + " ("@ + dec(n) + ")."@ + ext)
    }
}

fn candidate_name(dir: &str, stem: &str, ext: &str, n: u64) -> (r: String)
    ensures
        r@ == output_candidate(dir@, stem@, ext@, n as nat),
{
    let mut name = string_of(stem);
    if n < 2 {
        name.append(".");
    } else {
        name.append(" (");
        push_dec(&mut name, n);
        name.append(").");
    }
    name.append(ext);
    path_join(dir, name.as_str())
}

/// The first name not taken: given whether each name in turn is taken, the
/// index of the first one that is not (the number of answers when all are).
pub fn first_free(taken: &Vec<bool>) -> (k: usize)
    ensures
        k <= taken@.len(),
        forall|j: int| 0 <= j < k ==> #[trigger] taken@[j],
        k < taken@.len() ==> !taken@[k as int],
{
    let n = taken.len();
    let mut k: usize = 0;
    while k < n && taken[k]
        invariant
            n == taken@.len(),
            k <= n,
            forall|j: int| 0 <= j < k ==> #[trigger] taken@[j],
        decreases n - k,
    {
        k = k + 1;
    }
    k
}

/// The disk's answers to "is this name taken?" for the names tried in
/// order: every answer but the last is yes, and the asking stops at the
/// first no (or at the end of the names that can be counted).
pub open spec fn names_asked(taken: Seq<bool>) -> bool {
    &&& taken.len() >= 1
    &&& forall|j: int| 0 <= j < taken.len() - 1 ==> #[trigger] taken[j]
}

/// Where the first free name lies among the answers `taken`.
pub open spec fn free_at(taken: Seq<bool>, k: int) -> bool {
    &&& 0 <= k <= taken.len()
    &&& forall|j: int| 0 <= j < k ==> #[trigger] taken[j]
    &&& k < taken.len() ==> !taken[k]
}

/// Final output path with conflict-free naming: `name.ext`, else
/// `name (2).ext`, `name (3).ext`... the first that the disk reports free at
/// the moment it is asked. The names are asked in order; the answers are
/// the disk's.
pub fn resolve_output(source: &str, opts: &JobOptions, target: Format) -> (r: String)
    ensures
        final_output(source@, opts.output_dir.deep_view(), target, r@),
{
    let dir = match &opts.output_dir {
        Some(d) => string_of(d.as_str()),
        None => match path_parent(source) {
            Some(p) => p,
            None => String::new(),
        },
    };
    let stem = match path_file_stem(source) {
        Some(s) => s,
        None => string_of("output"),
    };
    let ext = target.extension();
    let mut taken: Vec<bool> = Vec::new();
    let mut j: usize = 0;
    loop
        invariant_except_break
            j < usize::MAX - 1,
            taken@.len() == j,
            forall|i: int| 0 <= i < j ==> #[trigger] taken@[i],
        ensures
            names_asked(taken@),
            taken@.len() < usize::MAX,
        decreases usize::MAX - 1 - j,
    {
        let candidate = candidate_name(dir.as_str(), stem.as_str(), ext, j as u64 + 1);
        let t = path_exists(candidate.as_str());
        taken.push(t);
        if !t || j + 2 >= usize::MAX - 1 {
            break;
        }
        j = j + 1;
    }
    let k = first_free(&taken);
    assert(free_at(taken@, k as int));
    let r = candidate_name(dir.as_str(), stem.as_str(), ext, k as u64 + 1);
    assert(dir@ == output_dir_spec(source@, opts.output_dir.deep_view()));
    assert(stem@ == output_stem(source@));
    r
}

/// The temp file a non-final step writes: `<dir>/stage<idx>.<ext>`.
pub open spec fn stage_path(dir: Seq<char>, idx: nat, target: Format) -> Seq<char> {
    joined(dir, "stage"@ + dec(idx) + "."@ + target.ext())
}

/// The temp file a non-final step writes.
pub fn unique_tmp(dir: &str, idx: usize, target: Format) -> (r: String)
    ensures
        r@ == stage_path(dir@, idx as nat, target),
{
    let mut name = string_of("stage");
    push_dec(&mut name, idx as u64);
    name.append(".");
    name.append(target.extension());
    path_join(dir, name.as_str())
}

/// The format a job's source names by its extension.
pub open spec fn source_format(source: Seq<char>) -> Option<Format> {
    match ext_of(source) {
        Some(e) => format_of_ext(lower_seq(e)),
        None => None,
    }
}

/// What a job converts: its source format and the plan, or why it cannot run.
pub fn job_plan(source: &str, target: Format) -> (r: Result<(Format, Plan)>)
    ensures
        match source_format(source@) {
            None => r matches Err(Error::Other(m)) && m@ == "unknown input type: "@ + source@,
            Some(f) => match route(f, target) {
                Some(steps) => r matches Ok((g, p)) && g == f && p@ == steps,
                None => r matches Err(Error::Unsupported(a, b)) && a@ == f.ext() && b@ == target.ext(),
            },
        },
{
    let src_format = match path_extension(source) {
        Some(e) => Format::from_extension(e.as_str()),
        None => None,
    };
    let src_format = match src_format {
        Some(f) => f,
        None => return Err(Error::Other(concat("unknown input type: ", source))),
    };
    match plan(src_format, target) {
        Some(p) => Ok((src_format, p)),
        None => Err(Error::Unsupported(src_format.to_string(), target.to_string())),
    }
}

/// A job's start: the source must exist (the disk's answer at the moment of
/// the call), then it is planned as [`job_plan`] says.
pub fn prepare_job(source: &str, target: Format) -> (r: Result<(Format, Plan)>)
    ensures
        r matches Err(Error::InputMissing(s)) ==> s@ == source@,
        !(r matches Err(Error::InputMissing(_))) ==> match source_format(source@) {
            None => r matches Err(Error::Other(m)) && m@ == "unknown input type: "@ + source@,
            Some(f) => match route(f, target) {
                Some(steps) => r matches Ok((g, p)) && g == f && p@ == steps,
                None => r matches Err(Error::Unsupported(a, b)) && a@ == f.ext() && b@ == target.ext(),
            },
        },
{
    if !path_exists(source) {
        return Err(Error::InputMissing(string_of(source)));
    }
    job_plan(source, target)
}

/// Where step `idx` of `n` writes: the final step to the conflict-free
/// output path, the others to temp files.
pub fn step_destination(source: &str, opts: &JobOptions, tmp_dir: &str, idx: usize, n: usize, target: Format) -> (r: String)
    ensures
        idx + 1 == n ==> final_output(source@, opts.output_dir.deep_view(), target, r@),
        idx + 1 != n ==> r@ == stage_path(tmp_dir@, idx as nat, target),
{
    if idx < n && idx + 1 == n {
        resolve_output(source, opts, target)
    } else {
        unique_tmp(tmp_dir, idx, target)
    }
}

/// `out` is the job's output name: the first name the disk reported free
/// when asked in order (see [`resolve_output`]).
pub open spec fn final_output(source: Seq<char>, output_dir: Option<Seq<char>>, target: Format, out: Seq<char>) -> bool {
    exists|taken: Seq<bool>, k: int| #![trigger names_asked(taken), free_at(taken, k)]
        names_asked(taken) && free_at(taken, k) && out == output_candidate(
            output_dir_spec(source, output_dir),
            output_stem(source),
            target.ext(),
            (k + 1) as nat,
        )
}

/// What a job does next.
#[derive(Debug)]
pub enum JobAction {
    /// Run step `idx` of the plan, reading `src` and writing `dst`.
    Run { idx: usize, src: String, dst: String, pipeline: Pipeline, target: Format },
    /// Every step ran: the job's output is `output`.
    Finish { output: String },
    /// The job was cancelled before its next step.
    Cancel,
}

/// The next move of a job that has run `done` steps of its plan and whose
/// latest file is `current` (the source before the first step): a
/// cancellation stops it before the next step; otherwise the next step reads
/// `current` and writes its destination (see [`step_destination`]); after the
/// last step the job finishes with `current`.
pub fn next_action(
    source: &str,
    opts: &JobOptions,
    tmp_dir: &str,
    plan: &Plan,
    done: usize,
    current: &str,
    cancelled: bool,
) -> (r: JobAction)
    requires
        done <= plan@.len(),
    ensures
        done == plan@.len() ==> (r matches JobAction::Finish { output } && output@ == current@),
        done < plan@.len() && cancelled ==> r is Cancel,
        done < plan@.len() && !cancelled ==> (r matches JobAction::Run { idx, src, dst, pipeline, target }
            && idx == done
            && src@ == current@
            && pipeline == plan@[done as int].pipeline
            && target == plan@[done as int].output
            && (done + 1 == plan@.len() ==> final_output(source@, opts.output_dir.deep_view(), target, dst@))
            && (done + 1 != plan@.len() ==> dst@ == stage_path(tmp_dir@, done as nat, target))),
{
    let n = plan.steps.len();
    if done == n {
        return JobAction::Finish { output: string_of(current) };
    }
    if cancelled {
        return JobAction::Cancel;
    }
    let step = plan.steps[done];
    let dst = step_destination(source, opts, tmp_dir, done, n, step.output);
    JobAction::Run { idx: done, src: string_of(current), dst, pipeline: step.pipeline, target: step.output }
}

/// How many jobs run at once: the machine's parallelism within 1..=4, or 3
/// when it is unknown.
pub fn worker_count(parallelism: Option<usize>) -> (r: usize)
    ensures
        r == match parallelism {
            Some(n) => if n < 1 { 1 } else if n > 4 { 4 } else { n },
            None => 3,
        },
{
    match parallelism {
        Some(n) => if n < 1 { 1 } else if n > 4 { 4 } else { n },
        None => 3,
    }
}

} // verus!

verus! {

/// For the UI: every source format and its supported targets.
#[derive(Debug, Clone)]
pub struct MatrixEntry {
    pub format: Format,
    pub category: Category,
    pub targets: Vec<Format>,
}

/// Entry `k` describes format `fs[k]`: its category and its targets.
pub open spec fn entries_describe(entries: Seq<MatrixEntry>, fs: Seq<Format>) -> bool {
    &&& entries.len() == fs.len()
    &&& forall|k: int| 0 <= k < entries.len() ==> {
        &&& (#[trigger] entries[k]).format == fs[k]
        &&& entries[k].category == fs[k].cat()
        &&& entries[k].targets@ == targets(fs[k])
    }
}

/// For the UI: every source format (category by category) and its supported targets.
pub fn ui_matrix() -> (r: Vec<MatrixEntry>)
    ensures
        entries_describe(r@, all_formats()),
{
    let cats = Category::all();
    let mut out: Vec<MatrixEntry> = Vec::new();
    let mut c: usize = 0;
    while c < 8
        invariant
            c <= 8,
            cats@ == categories(),
            entries_describe(out@, formats_upto(c as int)),
        decreases 8 - c,
    {
        let cat = cats[c];
        let fs = formats_in_category(cat);
        let m = fs.len();
        let ghost base = formats_upto(c as int);
        let mut j: usize = 0;
        while j < m
            invariant
                m == fs@.len(),
                fs@ == formats_of(cat),
                j <= m,
                entries_describe(out@, base + fs@.take(j as int)),
            decreases m - j,
        {
            let f = fs[j];
            proof {
                lemma_category_listing(cat, f);
                assert(fs@.contains(f));
            }
            let ghost prev = out@;
            out.push(MatrixEntry { format: f, category: cat, targets: targets_for(f) });
            proof {
                let now = base + fs@.take(j + 1);
                assert(now =~= (base + fs@.take(j as int)).push(f));
                assert forall|k: int| 0 <= k < out@.len() implies {
                    &&& (#[trigger] out@[k]).format == now[k]
                    &&& out@[k].category == now[k].cat()
                    &&& out@[k].targets@ == targets(now[k])
                } by {
                    if k < prev.len() {
                        assert(out@[k] == prev[k]);
                    }
                }
            }
            j = j + 1;
        }
        assert(fs@.take(m as int) =~= fs@);
        assert(formats_upto(c + 1) == base + formats_of(categories()[c as int]));
        c = c + 1;
    }
    out
}

/// The matrix the UI shows has an entry for every format, and each entry
/// offers exactly the conversions the router can plan from its format.
pub proof fn lemma_matrix_matches_router(entries: Seq<MatrixEntry>, f: Format, t: Format)
    requires
        entries_describe(entries, all_formats()),
    ensures
        exists|i: int| 0 <= i < entries.len() && (#[trigger] entries[i]).format == f,
        forall|i: int| 0 <= i < entries.len() && (#[trigger] entries[i]).format == f
            ==> (entries[i].targets@.contains(t) <==> route(f, t) is Some),
{
    crate::format::lemma_all_formats_complete(f);
    let i = choose|i: int| 0 <= i < all_formats().len() && all_formats()[i] == f;
    assert(entries[i].format == f);
    crate::route::lemma_targets_exact(f, t);
}

} // verus!

verus! {

/// What one step of a job runs.
#[derive(Debug)]
pub enum StepCommand {
    /// Decode and re-encode with the native image codecs.
    NativeImage { quality: Option<u8> },
    /// ffmpeg, with ffprobe for the duration.
    Ffmpeg { ffmpeg: String, ffprobe: String, options: AvOptions },
    /// LibreOffice into a private temp dir, the result then moved onto the destination.
    LibreOffice,
    /// pdftotext with these arguments.
    PdfToText { program: String, args: Vec<String> },
    /// pdftoppm with these arguments: pages named `<stem>-<n>` in `out_dir`.
    PdfToImages { program: String, out_dir: String, stem: String, args: Vec<String> },
    /// pandoc with these arguments.
    Pandoc { program: String, args: Vec<String> },
    /// tesseract with these arguments; the text arrives on stdout.
    Ocr { program: String, args: Vec<String> },
    /// A plain file copy.
    Copy,
}

/// The directory pdftoppm writes pages into: the destination's.
pub open spec fn pages_dir(dst: Seq<char>) -> Seq<char> {
    match parent_of(dst) {
        Some(p) => p,
        None => "."@,
    }
}

/// The name stem of the pages pdftoppm writes: the source's.
pub open spec fn pages_stem(src: Seq<char>) -> Seq<char> {
    match stem_of(src) {
        Some(s) => s,
        None => "page"@,
    }
}

/// What a step runs for its pipeline, or why it cannot run: the engine it
/// needs is missing, or the step does not fit the pipeline.
pub fn step_command(
    engines: &Engines,
    has_office: bool,
    pipeline: Pipeline,
    src: &str,
    dst: &str,
    target: Format,
    opts: &JobOptions,
) -> (r: Result<StepCommand>)
    ensures
        pipeline == Pipeline::NativeImage ==> (r matches Ok(StepCommand::NativeImage { quality })
            && quality == opts.quality),
        pipeline == Pipeline::Ffmpeg ==> (r matches Ok(StepCommand::Ffmpeg { ffmpeg, ffprobe, options })
            && options.quality == opts.quality
            && options.preset_view() == opts.preset.deep_view()
            && (exists|w: bool| ffmpeg@ == joined(engines.dir@, tool_rel("ffmpeg"@, "ffmpeg"@, w)))
            && (exists|w: bool| ffprobe@ == joined(engines.dir@, tool_rel("ffmpeg"@, "ffprobe"@, w))))
            || (r matches Err(e) && e is EngineMissing),
        pipeline == Pipeline::LibreOffice ==> if has_office {
            r matches Ok(StepCommand::LibreOffice)
        } else {
            r matches Err(e) && missing(e, "libreoffice"@, engines.dir@)
        },
        pipeline == Pipeline::Poppler && target == Format::Txt ==> (r matches Ok(StepCommand::PdfToText { program, args })
            && args.deep_view() == pdftotext_args_spec(src@, dst@, true)
            && exists|w: bool| program@ == joined(engines.dir@, tool_rel("poppler"@, "pdftotext"@, w)))
            || (r matches Err(e) && missing(e, "poppler"@, Seq::empty())),
        pipeline == Pipeline::Poppler && (target == Format::Png || target == Format::Jpg) ==> (r matches Ok(StepCommand::PdfToImages { program, out_dir, stem, args })
            && out_dir@ == pages_dir(dst@)
            && stem@ == pages_stem(src@)
            && args.deep_view() == pdftoppm_args_spec(src@, out_dir@, stem@, target, 150)
            && exists|w: bool| program@ == joined(engines.dir@, tool_rel("poppler"@, "pdftoppm"@, w)))
            || (r matches Err(e) && missing(e, "poppler"@, Seq::empty())),
        pipeline == Pipeline::Poppler && target != Format::Txt && target != Format::Png && target != Format::Jpg
            ==> (r matches Err(Error::Other(m)) && m@ == "poppler step target mismatch"@),
        pipeline == Pipeline::Pandoc ==> (r matches Ok(StepCommand::Pandoc { program, args })
            && pandoc_args_spec(src@, target, dst@) == Some(args.deep_view())
            && exists|w: bool| program@ == joined(engines.dir@, tool_rel("pandoc"@, "pandoc"@, w)))
            || (r matches Err(e) && missing(e, "pandoc"@, Seq::empty()))
            || (pandoc_args_spec(src@, target, dst@) is None && (r matches Err(Error::Unsupported(a, b))
                && a@ == "pandoc"@ && b@ == target.ext())),
        pipeline == Pipeline::Ocr ==> (r matches Ok(StepCommand::Ocr { program, args })
            && (exists|w: bool| program@ == joined(engines.dir@, tool_rel("tesseract"@, "tesseract"@, w)))
            && exists|langs: Seq<char>| (langs == "eng"@ || langs == "eng+chi_sim"@)
                && args.deep_view() == tesseract_args_spec(src@, joined(engines.dir@, "tesseract/tessdata"@), langs))
            || (r matches Err(e) && (missing(e, "tesseract"@, Seq::empty()) || missing(e, "tessdata"@, Seq::empty()))),
        pipeline == Pipeline::Qpdf ==> (r matches Err(Error::Other(m))
            && m@ == "qpdf is command-only (merge/split/encrypt)"@),
        pipeline == Pipeline::Copy ==> r matches Ok(StepCommand::Copy),
{
    match pipeline {
        Pipeline::NativeImage => Ok(StepCommand::NativeImage { quality: opts.quality }),
        Pipeline::Ffmpeg => {
            let ffmpeg = match engines.ffmpeg() {
                Ok(p) => p,
                Err(e) => return Err(e),
            };
            let ffprobe = match engines.ffprobe() {
                Ok(p) => p,
                Err(e) => return Err(e),
            };
            let preset = match &opts.preset {
                Some(p) => Some(string_of(p.as_str())),
                None => None,
            };
            let options = AvOptions { quality: opts.quality, preset };
            Ok(StepCommand::Ffmpeg { ffmpeg, ffprobe, options })
        },
        Pipeline::LibreOffice => {
            if has_office {
                Ok(StepCommand::LibreOffice)
            } else {
                Err(Error::EngineMissing(string_of("libreoffice"), string_of(engines.dir.as_str())))
            }
        },
        Pipeline::Poppler => match target {
            Format::Txt => match engines.pdftotext() {
                Some(program) => {
                    let args = pdftotext_args(src, dst, true);
                    Ok(StepCommand::PdfToText { program, args })
                },
                None => Err(Error::EngineMissing(string_of("poppler"), String::new())),
            },
            Format::Png | Format::Jpg => match engines.pdftoppm() {
                Some(program) => {
                    let stem = match path_file_stem(src) {
                        Some(s) => s,
                        None => string_of("page"),
                    };
                    let out_dir = match path_parent(dst) {
                        Some(p) => p,
                        None => string_of("."),
                    };
                    let args = pdftoppm_args(src, out_dir.as_str(), stem.as_str(), target, 150);
                    Ok(StepCommand::PdfToImages { program, out_dir, stem, args })
                },
                None => Err(Error::EngineMissing(string_of("poppler"), String::new())),
            },
            _ => Err(Error::Other(string_of("poppler step target mismatch"))),
        },
        Pipeline::Pandoc => {
            let program = match engines.pandoc() {
                Some(p) => p,
                None => return Err(Error::EngineMissing(string_of("pandoc"), String::new())),
            };
            match convert_args(src, target, dst) {
                Some(args) => Ok(StepCommand::Pandoc { program, args }),
                None => Err(Error::Unsupported(string_of("pandoc"), target.to_string())),
            }
        },
        Pipeline::Ocr => {
            let program = match engines.tesseract() {
                Some(p) => p,
                None => return Err(Error::EngineMissing(string_of("tesseract"), String::new())),
            };
            let tessdata = match engines.tessdata() {
                Some(d) => d,
                None => return Err(Error::EngineMissing(string_of("tessdata"), String::new())),
            };
            let langs = detect_langs(tessdata.as_str());
            let args = tesseract_args(src, tessdata.as_str(), langs.as_str());
            Ok(StepCommand::Ocr { program, args })
        },
        Pipeline::Qpdf => Err(Error::Other(string_of("qpdf is command-only (merge/split/encrypt)"))),
        Pipeline::Copy => Ok(StepCommand::Copy),
    }
}

/// The page number of a sibling file `<stem>-<n>.<ext>` (extension in any
/// case), if it is one.
pub open spec fn sibling_number(cand_stem: Seq<char>, cand_ext: Seq<char>, stem: Seq<char>, ext: Seq<char>) -> Option<u32> {
    let dash = stem + "-"@;
    if crate::text::eq_ignore_case(cand_ext, ext) && crate::text::has_prefix(cand_stem, dash) {
        crate::text::parse_u32_spec(cand_stem.skip(dash.len() as int))
    } else {
        None
    }
}

/// The page number of a sibling file `<stem>-<n>.<ext>`, if it is one.
pub fn sibling_page_number(cand_stem: &str, cand_ext: &str, stem: &str, ext: &str) -> (r: Option<u32>)
    ensures
        r == sibling_number(cand_stem@, cand_ext@, stem@, ext@),
{
    let dash = concat(stem, "-");
    if crate::text::eq_ignore_ascii_case(cand_ext, ext) && crate::text::starts_with(cand_stem, dash.as_str()) {
        let n = cand_stem.unicode_len();
        let k = dash.as_str().unicode_len();
        crate::text::parse_u32(cand_stem.substring_char(k, n))
    } else {
        None
    }
}

/// The first page among a directory's entries (given by stem and
/// extension): the sibling with the smallest page number, the first of them
/// on ties. An entry without a stem or an extension ends the search with
/// nothing found, as a listing that cannot be read does.
pub fn first_sibling(entries: &Vec<(Option<String>, Option<String>)>, stem: &str, ext: &str) -> (r: Option<usize>)
    ensures
        r is Some ==> {
            let i = r->0 as int;
            &&& 0 <= i < entries@.len()
            &&& forall|k: int| 0 <= k < entries@.len() ==> (#[trigger] entries@[k]).0 is Some && entries@[k].1 is Some
            &&& sibling_number(entries@[i].0->0@, entries@[i].1->0@, stem@, ext@) is Some
            &&& forall|k: int| 0 <= k < entries@.len() && #[trigger] sibling_number(
                entries@[k].0->0@, entries@[k].1->0@, stem@, ext@) is Some
                ==> sibling_number(entries@[i].0->0@, entries@[i].1->0@, stem@, ext@)->0
                    <= sibling_number(entries@[k].0->0@, entries@[k].1->0@, stem@, ext@)->0
            &&& forall|k: int| 0 <= k < i && #[trigger] sibling_number(
                entries@[k].0->0@, entries@[k].1->0@, stem@, ext@) is Some
                ==> sibling_number(entries@[i].0->0@, entries@[i].1->0@, stem@, ext@)->0
                    < sibling_number(entries@[k].0->0@, entries@[k].1->0@, stem@, ext@)->0
        },
        r is None ==> (exists|k: int| 0 <= k < entries@.len() && ((#[trigger] entries@[k]).0 is None || entries@[k].1 is None))
            || forall|k: int| 0 <= k < entries@.len() ==> #[trigger] sibling_number(
                entries@[k].0->0@, entries@[k].1->0@, stem@, ext@) is None,
{
    let n = entries.len();
    let mut best: Option<(u32, usize)> = None;
    let mut i: usize = 0;
    while i < n
        invariant
            n == entries@.len(),
            i <= n,
            forall|k: int| 0 <= k < i ==> (#[trigger] entries@[k]).0 is Some && entries@[k].1 is Some,
            match best {
                Some((b, bi)) => {
                    &&& 0 <= bi < i
                    &&& sibling_number(entries@[bi as int].0->0@, entries@[bi as int].1->0@, stem@, ext@) == Some(b)
                    &&& forall|k: int| 0 <= k < i && #[trigger] sibling_number(
                        entries@[k].0->0@, entries@[k].1->0@, stem@, ext@) is Some
                        ==> b <= sibling_number(entries@[k].0->0@, entries@[k].1->0@, stem@, ext@)->0
                    &&& forall|k: int| 0 <= k < bi && #[trigger] sibling_number(
                        entries@[k].0->0@, entries@[k].1->0@, stem@, ext@) is Some
                        ==> b < sibling_number(entries@[k].0->0@, entries@[k].1->0@, stem@, ext@)->0
                },
                None => forall|k: int| 0 <= k < i ==> #[trigger] sibling_number(
                    entries@[k].0->0@, entries@[k].1->0@, stem@, ext@) is None,
            },
        decreases n - i,
    {
        let (s, e) = (&entries[i].0, &entries[i].1);
        match (s, e) {
            (Some(s), Some(e)) => {
                match sibling_page_number(s.as_str(), e.as_str(), stem, ext) {
                    Some(num) => {
                        let better = match best {
                            Some((b, _)) => num < b,
                            None => true,
                        };
                        if better {
                            best = Some((num, i));
                        }
                    },
                    None => {},
                }
            },
            _ => {
                return None;
            },
        }
        i = i + 1;
    }
    match best {
        Some((_, bi)) => Some(bi),
        None => None,
    }
}

} // verus!
