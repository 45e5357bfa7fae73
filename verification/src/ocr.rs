//! Tesseract OCR bridge: image -> txt.

use vstd::prelude::*;

use crate::paths::{joined, path_exists, path_join};
use crate::text::{push_arg, string_of};

verus! {

/// Tesseract's arguments: read `src`, write the text to stdout.
pub open spec fn tesseract_args_spec(src: Seq<char>, tessdata: Seq<char>, langs: Seq<char>) -> Seq<Seq<char>> {
    seq![src, "stdout"@, "-l"@, langs, "--tessdata-dir"@, tessdata, "--psm"@, "3"@]
}

/// OCR an image to stdout. Languages like "eng" or "eng+chi_sim".
pub fn tesseract_args(src: &str, tessdata: &str, langs: &str) -> (r: Vec<String>)
    ensures
        r.deep_view() == tesseract_args_spec(src@, tessdata@, langs@),
{
    let mut v: Vec<String> = Vec::new();
    push_arg(&mut v, src);
    push_arg(&mut v, "stdout");
    push_arg(&mut v, "-l");
    push_arg(&mut v, langs);
    push_arg(&mut v, "--tessdata-dir");
    push_arg(&mut v, tessdata);
    push_arg(&mut v, "--psm");
    push_arg(&mut v, "3");
    assert(v.deep_view() =~= tesseract_args_spec(src@, tessdata@, langs@));
    v
}

/// The languages to ask for: English, plus simplified Chinese when its data
/// is there.
pub fn langs_for(has_chi_sim: bool) -> (r: String)
    ensures
        r@ == if has_chi_sim { "eng+chi_sim"@ } else { "eng"@ },
{
    if has_chi_sim {
        string_of("eng+chi_sim")
    } else {
        string_of("eng")
    }
}

/// The language data whose presence adds simplified Chinese:
/// `<tessdata>/chi_sim.traineddata`.
pub fn chi_sim_data(tessdata: &str) -> (r: String)
    ensures
        r@ == joined(tessdata@, "chi_sim.traineddata"@),
{
    path_join(tessdata, "chi_sim.traineddata")
}

/// Pick available languages, preferring "eng+chi_sim" when the data is
/// there: the disk is asked whether [`chi_sim_data`] exists at the moment
/// of the call, and [`langs_for`] turns the answer into the languages.
pub fn detect_langs(tessdata: &str) -> (r: String)
    ensures
        r@ == "eng"@ || r@ == "eng+chi_sim"@,
{
    let data = chi_sim_data(tessdata);
    let found = path_exists(data.as_str());
    langs_for(found)
}

} // verus!
