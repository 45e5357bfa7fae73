//! Poppler bridge: pdf -> text / images. Qpdf bridge: merge / split / encrypt.
//! The command lines and the ordering of the pages produced are computed here.

use vstd::prelude::*;

use crate::error::{Error, Result};
use crate::format::Format;
use crate::paths::{ext_of, joined, path_extension, path_file_stem, path_join, stem_of};
use crate::text::{
    after_last, concat, dec, eq_ignore_ascii_case, eq_ignore_case, has_prefix, last_segment,
    parse_u32, parse_u32_spec, push_arg, push_dec, push_owned, starts_with, str_eq, string_of,
};

verus! {

/// pdftotext's arguments: `-layout` keeps multi-column reading order.
pub open spec fn pdftotext_args_spec(src: Seq<char>, out: Seq<char>, layout: bool) -> Seq<Seq<char>> {
    seq![if layout { "-layout"@ } else { "-raw"@ }, src, out]
}

/// pdf -> txt. `layout` keeps multi-column reading order heuristics.
pub fn pdftotext_args(src: &str, out: &str, layout: bool) -> (r: Vec<String>)
    ensures
        r.deep_view() == pdftotext_args_spec(src@, out@, layout),
{
    let mut v: Vec<String> = Vec::new();
    if layout {
        push_arg(&mut v, "-layout");
    } else {
        push_arg(&mut v, "-raw");
    }
    push_arg(&mut v, src);
    push_arg(&mut v, out);
    assert(v.deep_view() =~= pdftotext_args_spec(src@, out@, layout));
    v
}

/// pdftoppm's image kind flag: jpeg for jpg targets, png otherwise.
pub open spec fn raster_kind(target: Format) -> Seq<char> {
    if target == Format::Jpg { "jpeg"@ } else { "png"@ }
}

/// The extension pdftoppm gives the pages it writes.
pub open spec fn page_ext(target: Format) -> Seq<char> {
    if target == Format::Jpg { "jpg"@ } else { "png"@ }
}

/// pdftoppm's arguments: one image per page, named `<out_dir>/<stem>-<n>`.
pub open spec fn pdftoppm_args_spec(src: Seq<char>, out_dir: Seq<char>, stem: Seq<char>, target: Format, dpi: u32) -> Seq<Seq<char>> {
    seq!["-r"@, dec(dpi as nat), "-"@ + raster_kind(target), src, joined(out_dir, stem)]
}

/// Rasterising a PDF writes page images of the target's own format: the
/// pages carry the target's extension and pdftoppm is asked for JPEG
/// exactly when the target is jpg; the resolution comes first, then the
/// image kind, the source and the name prefix in the output directory.
pub proof fn lemma_pages_in_the_target_format(src: Seq<char>, out_dir: Seq<char>, stem: Seq<char>, target: Format, dpi: u32)
    requires
        target == Format::Png || target == Format::Jpg,
    ensures
        page_ext(target) == target.ext(),
        ({
            let a = pdftoppm_args_spec(src, out_dir, stem, target, dpi);
            &&& a.len() == 5
            &&& a[0] == "-r"@
            &&& a[1] == dec(dpi as nat)
            &&& a[2] == if target == Format::Jpg { "-jpeg"@ } else { "-png"@ }
            &&& a[3] == src
            &&& a[4] == joined(out_dir, stem)
        }),
{
    reveal_strlit("-jpeg");
    reveal_strlit("-png");
    reveal_strlit("-");
    reveal_strlit("jpeg");
    reveal_strlit("png");
    assert("-"@ + "jpeg"@ =~= "-jpeg"@);
    assert("-"@ + "png"@ =~= "-png"@);
}

/// pdf -> one image per page, named `<stem>-<n>.png|jpg` in `out_dir`.
pub fn pdftoppm_args(src: &str, out_dir: &str, stem: &str, target: Format, dpi: u32) -> (r: Vec<String>)
    ensures
        r.deep_view() == pdftoppm_args_spec(src@, out_dir@, stem@, target, dpi),
{
    let mut v: Vec<String> = Vec::new();
    push_arg(&mut v, "-r");
    let mut d = String::new();
    push_dec(&mut d, dpi as u64);
    assert(d@ =~= dec(dpi as nat));
    push_owned(&mut v, d);
    let ext = if target == Format::Jpg { "jpeg" } else { "png" };
    push_owned(&mut v, concat("-", ext));
    push_arg(&mut v, src);
    let prefix = path_join(out_dir, stem);
    push_owned(&mut v, prefix);
    assert(v.deep_view() =~= pdftoppm_args_spec(src@, out_dir@, stem@, target, dpi));
    v
}

/// The page number a file name carries after its last `-` (0 when none).
pub open spec fn page_key(p: Seq<char>) -> u32 {
    match stem_of(p) {
        Some(s) => match parse_u32_spec(after_last(s, '-')) {
            Some(n) => n,
            None => 0,
        },
        None => 0,
    }
}

/// The page number a file name carries after its last `-` (0 when none).
pub fn natural_page_key(p: &str) -> (r: u32)
    ensures
        r == page_key(p@),
{
    match path_file_stem(p) {
        Some(s) => match parse_u32(last_segment(s.as_str(), '-')) {
            Some(n) => n,
            None => 0,
        },
        None => 0,
    }
}

/// The keys in order.
pub open spec fn keys_sorted(s: Seq<String>) -> bool {
    forall|i: int, j: int| 0 <= i <= j < s.len() ==> page_key(#[trigger] s[i]@) <= page_key(#[trigger] s[j]@)
}

/// `r` takes each of its items from `pages` at `origin`, and items with
/// equal keys keep the order they had in `pages`.
pub open spec fn stable_from(r: Seq<String>, pages: Seq<String>, origin: Seq<int>) -> bool {
    &&& origin.len() == r.len()
    &&& forall|k: int| 0 <= k < r.len() ==> 0 <= #[trigger] origin[k] < pages.len() && r[k] == pages[origin[k]]
    &&& forall|a: int, b: int| 0 <= a < b < r.len() && page_key(#[trigger] r[a]@) == page_key(#[trigger] r[b]@)
        ==> origin[a] < origin[b]
}

/// Orders page files by the page number in their names (numerically, so
/// page 10 follows page 9). Stable: equal numbers keep their order.
pub fn sort_pages(pages: Vec<String>) -> (r: Vec<String>)
    ensures
        r@.to_multiset() == pages@.to_multiset(),
        keys_sorted(r@),
        exists|origin: Seq<int>| stable_from(r@, pages@, origin),
{
    broadcast use vstd::seq_lib::group_to_multiset_ensures, vstd::multiset::group_multiset_axioms;
    let n = pages.len();
    let mut out: Vec<String> = Vec::new();
    let mut out_keys: Vec<u32> = Vec::new();
    let mut i: usize = 0;
    let ghost mut origin: Seq<int> = Seq::empty();
    while i < n
        invariant
            n == pages@.len(),
            i <= n,
            stable_from(out@, pages@, origin),
            forall|k: int| 0 <= k < origin.len() ==> #[trigger] origin[k] < i,
            out_keys@.len() == out@.len(),
            forall|k: int| 0 <= k < out@.len() ==> #[trigger] out_keys@[k] == page_key(out@[k]@),
            keys_sorted(out@),
            out@.to_multiset() == pages@.take(i as int).to_multiset(),
        decreases n - i,
    {
        let p = pages[i].clone();
        let key = natural_page_key(p.as_str());
        // insert after every page whose key is not larger (stable)
        let m = out.len();
        let mut pos: usize = 0;
        while pos < m && out_keys[pos] <= key
            invariant
                m == out@.len(),
                m == out_keys@.len(),
                pos <= m,
                forall|k: int| 0 <= k < pos ==> #[trigger] out_keys@[k] <= key,
            decreases m - pos,
        {
            pos = pos + 1;
        }
        let ghost old_out = out@;
        let ghost old_origin = origin;
        out.insert(pos, p);
        out_keys.insert(pos, key);
        proof {
            assert(out@ =~= old_out.insert(pos as int, pages@[i as int]));
            assert(out@.remove(pos as int) =~= old_out);
            assert(pages@.take(i + 1) =~= pages@.take(i as int).push(pages@[i as int]));
            let x = pages@[i as int];
            let ms = out@.to_multiset();
            assert(out@[pos as int] == x);
            out@.to_multiset_ensures();
            pages@.take(i as int).to_multiset_ensures();
            assert(out@.remove(pos as int).to_multiset() == ms.remove(x));
            assert(out@.contains(x));
            assert(ms.count(x) > 0);
            assert(ms =~= ms.remove(x).insert(x));
            assert(pages@.take(i + 1).to_multiset() == pages@.take(i as int).to_multiset().insert(x));
            origin = old_origin.insert(pos as int, i as int);
            assert forall|k: int| 0 <= k < out@.len() implies 0 <= #[trigger] origin[k] < pages@.len() && out@[k] == pages@[origin[k]] by {
                if k < pos {
                    assert(origin[k] == old_origin[k]);
                } else if k > pos {
                    assert(origin[k] == old_origin[k - 1]);
                }
            }
            assert forall|a: int, b: int| 0 <= a < b < out@.len() && page_key(#[trigger] out@[a]@) == page_key(#[trigger] out@[b]@)
                implies origin[a] < origin[b] by {
                assert(out_keys@[a] == page_key(out@[a]@));
                assert(out_keys@[b] == page_key(out@[b]@));
                if a < pos && b < pos {
                    assert(old_out[a] == out@[a] && old_out[b] == out@[b]);
                } else if a > pos && b > pos {
                    assert(old_out[a - 1] == out@[a] && old_out[b - 1] == out@[b]);
                } else if a < pos && b == pos {
                    assert(origin[a] == old_origin[a]);
                } else if a < pos && b > pos {
                    assert(out_keys@[pos as int] == key);
                    assert(out_keys@[b] >= out_keys@[pos as int + 1]);
                } else if a == pos {
                    assert(out_keys@[pos as int + 1] > key);
                }
            }
            assert forall|a: int, b: int| 0 <= a <= b < out@.len() implies page_key(#[trigger] out@[a]@) <= page_key(#[trigger] out@[b]@) by {
                assert(out_keys@[a] == page_key(out@[a]@));
                assert(out_keys@[b] == page_key(out@[b]@));
            }
        }
        i = i + 1;
    }
    assert(pages@.take(n as int) =~= pages@);
    assert(stable_from(out@, pages@, origin));
    out
}

} // verus!

verus! {

/// A file pdftoppm wrote for `stem`: named `<stem>` or `<stem>-...`, with the
/// target's extension in any case.
pub open spec fn rendered_page(p: Seq<char>, stem: Seq<char>, target: Format) -> bool {
    &&& stem_of(p) matches Some(s) && (s == stem || has_prefix(s, stem + "-"@))
    &&& ext_of(p) matches Some(e) && eq_ignore_case(e, page_ext(target))
}

pub open spec fn rendered_pred(stem: Seq<char>, target: Format) -> spec_fn(String) -> bool {
    |p: String| rendered_page(p@, stem, target)
}

/// A page file qpdf wrote when splitting `stem`: named `<stem>-...`.
pub open spec fn split_page(p: Seq<char>, stem: Seq<char>) -> bool {
    stem_of(p) matches Some(s) && has_prefix(s, stem + "-"@) && s != stem
}

pub open spec fn split_pred(stem: Seq<char>) -> spec_fn(String) -> bool {
    |p: String| split_page(p@, stem)
}

/// Whether `p` is a page pdftoppm wrote for `stem`.
pub fn is_rendered_page(p: &str, stem: &str, target: Format) -> (r: bool)
    ensures
        r == rendered_page(p@, stem@, target),
{
    let name_ok = match path_file_stem(p) {
        Some(s) => {
            let dash = concat(stem, "-");
            str_eq(s.as_str(), stem) || starts_with(s.as_str(), dash.as_str())
        },
        None => false,
    };
    let ext_ok = match path_extension(p) {
        Some(e) => {
            let want = if target == Format::Jpg { "jpg" } else { "png" };
            eq_ignore_ascii_case(e.as_str(), want)
        },
        None => false,
    };
    name_ok && ext_ok
}

/// Whether `p` is a page qpdf wrote when splitting `stem`.
pub fn is_split_page(p: &str, stem: &str) -> (r: bool)
    ensures
        r == split_page(p@, stem@),
{
    match path_file_stem(p) {
        Some(s) => {
            let dash = concat(stem, "-");
            starts_with(s.as_str(), dash.as_str()) && !str_eq(s.as_str(), stem)
        },
        None => false,
    }
}

/// The pages pdftoppm wrote among the files of its output directory, in
/// page order; none is an error.
pub fn select_rendered_pages(files: &Vec<String>, stem: &str, target: Format) -> (r: Result<Vec<String>>)
    ensures
        files@.filter(rendered_pred(stem@, target)).len() == 0 ==> (r matches Err(Error::Other(m))
            && m@ == "poppler produced no pages"@),
        files@.filter(rendered_pred(stem@, target)).len() > 0 ==> (r is Ok
            && r->Ok_0@.to_multiset() == files@.filter(rendered_pred(stem@, target)).to_multiset()
            && keys_sorted(r->Ok_0@)
            && exists|origin: Seq<int>| stable_from(r->Ok_0@, files@.filter(rendered_pred(stem@, target)), origin)),
{
    let ghost pred = rendered_pred(stem@, target);
    let n = files.len();
    let mut kept: Vec<String> = Vec::new();
    let mut i: usize = 0;
    while i < n
        invariant
            n == files@.len(),
            i <= n,
            pred == rendered_pred(stem@, target),
            kept@ == files@.take(i as int).filter(pred),
        decreases n - i,
    {
        reveal_with_fuel(Seq::<_>::filter, 1);
        assert(files@.take(i + 1).drop_last() =~= files@.take(i as int));
        if is_rendered_page(files[i].as_str(), stem, target) {
            kept.push(files[i].clone());
        }
        i = i + 1;
    }
    assert(files@.take(n as int) =~= files@);
    if kept.len() == 0 {
        return Err(Error::Other(string_of("poppler produced no pages")));
    }
    Ok(sort_pages(kept))
}

/// The pages qpdf wrote when splitting `stem`, in page order.
pub fn select_split_pages(files: &Vec<String>, stem: &str) -> (r: Vec<String>)
    ensures
        r@.to_multiset() == files@.filter(split_pred(stem@)).to_multiset(),
        keys_sorted(r@),
        exists|origin: Seq<int>| stable_from(r@, files@.filter(split_pred(stem@)), origin),
{
    let ghost pred = split_pred(stem@);
    let n = files.len();
    let mut kept: Vec<String> = Vec::new();
    let mut i: usize = 0;
    while i < n
        invariant
            n == files@.len(),
            i <= n,
            pred == split_pred(stem@),
            kept@ == files@.take(i as int).filter(pred),
        decreases n - i,
    {
        reveal_with_fuel(Seq::<_>::filter, 1);
        assert(files@.take(i + 1).drop_last() =~= files@.take(i as int));
        if is_split_page(files[i].as_str(), stem) {
            kept.push(files[i].clone());
        }
        i = i + 1;
    }
    assert(files@.take(n as int) =~= files@);
    sort_pages(kept)
}

/// qpdf's arguments for merging: every page of every input, in order.
pub open spec fn merge_inputs(inputs: Seq<Seq<char>>) -> Seq<Seq<char>>
    decreases inputs.len(),
{
    if inputs.len() == 0 {
        Seq::empty()
    } else {
        merge_inputs(inputs.drop_last()) + seq![inputs.last(), "1-z"@]
    }
}

pub open spec fn merge_args_spec(inputs: Seq<Seq<char>>, out: Seq<char>) -> Seq<Seq<char>> {
    seq!["--empty"@, "--pages"@] + merge_inputs(inputs) + seq!["--"@, out]
}

/// Merge many pdfs into one.
pub fn merge_args(inputs: &Vec<String>, out: &str) -> (r: Vec<String>)
    ensures
        r.deep_view() == merge_args_spec(inputs.deep_view(), out@),
{
    let mut args: Vec<String> = Vec::new();
    push_arg(&mut args, "--empty");
    push_arg(&mut args, "--pages");
    let n = inputs.len();
    let mut i: usize = 0;
    while i < n
        invariant
            n == inputs@.len(),
            i <= n,
            args.deep_view() == seq!["--empty"@, "--pages"@] + merge_inputs(inputs.deep_view().take(i as int)),
        decreases n - i,
    {
        push_arg(&mut args, inputs[i].as_str());
        push_arg(&mut args, "1-z");
        assert(inputs.deep_view().take(i + 1).drop_last() =~= inputs.deep_view().take(i as int));
        i = i + 1;
        assert(args.deep_view() =~= seq!["--empty"@, "--pages"@] + merge_inputs(inputs.deep_view().take(i as int)));
    }
    assert(inputs.deep_view().take(n as int) =~= inputs.deep_view());
    push_arg(&mut args, "--");
    push_arg(&mut args, out);
    assert(args.deep_view() =~= merge_args_spec(inputs.deep_view(), out@));
    args
}

/// qpdf's arguments for splitting: one file per page, `<stem>-<n>.pdf` in `out_dir`.
pub open spec fn split_args_spec(src: Seq<char>, out_dir: Seq<char>, stem: Seq<char>) -> Seq<Seq<char>> {
    seq!["--split-pages"@, src, joined(out_dir, stem + "-%d.pdf"@)]
}

/// Split into one file per page: `<stem>-<n>.pdf` in `out_dir`.
pub fn split_args(src: &str, out_dir: &str, stem: &str) -> (r: Vec<String>)
    ensures
        r.deep_view() == split_args_spec(src@, out_dir@, stem@),
{
    let mut args: Vec<String> = Vec::new();
    push_arg(&mut args, "--split-pages");
    push_arg(&mut args, src);
    let name = concat(stem, "-%d.pdf");
    push_owned(&mut args, path_join(out_dir, name.as_str()));
    assert(args.deep_view() =~= split_args_spec(src@, out_dir@, stem@));
    args
}

/// qpdf's arguments for AES-256 encryption; the owner password defaults to
/// the user password.
pub open spec fn encrypt_args_spec(src: Seq<char>, out: Seq<char>, user_pw: Seq<char>, owner_pw: Option<Seq<char>>) -> Seq<Seq<char>> {
    seq!["--encrypt"@, user_pw, match owner_pw {
        Some(o) => o,
        None => user_pw,
    }, "256"@, "--"@, src, out]
}

/// AES-256 encryption with a user password (owner password defaults to it).
pub fn encrypt_args(src: &str, out: &str, user_pw: &str, owner_pw: Option<&str>) -> (r: Vec<String>)
    ensures
        r.deep_view() == encrypt_args_spec(src@, out@, user_pw@, match owner_pw {
            Some(o) => Some(o@),
            None => None,
        }),
{
    let owner = match owner_pw {
        Some(o) => o,
        None => user_pw,
    };
    let mut args: Vec<String> = Vec::new();
    push_arg(&mut args, "--encrypt");
    push_arg(&mut args, user_pw);
    push_arg(&mut args, owner);
    push_arg(&mut args, "256");
    push_arg(&mut args, "--");
    push_arg(&mut args, src);
    push_arg(&mut args, out);
    assert(args.deep_view() =~= encrypt_args_spec(src@, out@, user_pw@, match owner_pw {
        Some(o) => Some(o@),
        None => None,
    }));
    args
}

/// qpdf's arguments for removing encryption, with the password when given.
pub open spec fn decrypt_args_spec(src: Seq<char>, out: Seq<char>, password: Option<Seq<char>>) -> Seq<Seq<char>> {
    let pw = match password {
        Some(p) => seq!["--password="@ + p],
        None => seq![],
    };
    pw + seq!["--decrypt"@, src, out]
}

/// Remove encryption; supply the password if the file is protected.
pub fn decrypt_args(src: &str, out: &str, password: Option<&str>) -> (r: Vec<String>)
    ensures
        r.deep_view() == decrypt_args_spec(src@, out@, match password {
            Some(p) => Some(p@),
            None => None,
        }),
{
    let mut args: Vec<String> = Vec::new();
    match password {
        Some(p) => {
            push_owned(&mut args, concat("--password=", p));
        },
        None => {},
    }
    push_arg(&mut args, "--decrypt");
    push_arg(&mut args, src);
    push_arg(&mut args, out);
    assert(args.deep_view() =~= decrypt_args_spec(src@, out@, match password {
        Some(p) => Some(p@),
        None => None,
    }));
    args
}

} // verus!
