//! File-system paths as text. The path algebra is std's (`std::path`); the
//! library only names what it returns and asks the disk through the few
//! probes below. std's path rules are those of the platform the library is
//! built for (`/` separators on Unix, `\` and drive prefixes on Windows),
//! fixed for a given build; the names below stand for them in that build.

use vstd::prelude::*;

verus! {

/// What `Path::join` gives for a base and a relative part, read as text.
pub uninterp spec fn joined(base: Seq<char>, rel: Seq<char>) -> Seq<char>;

/// What `Path::parent` gives, read as text.
pub uninterp spec fn parent_of(p: Seq<char>) -> Option<Seq<char>>;

/// What `Path::file_stem` gives, read as text.
pub uninterp spec fn stem_of(p: Seq<char>) -> Option<Seq<char>>;

/// What `Path::extension` gives, read as text.
pub uninterp spec fn ext_of(p: Seq<char>) -> Option<Seq<char>>;

/// What `Path::with_extension` gives, read as text.
pub uninterp spec fn with_ext(p: Seq<char>, ext: Seq<char>) -> Seq<char>;

/// `Path::join`: the result is named `joined` of the two texts.
#[verifier::external_body]
pub(crate) fn path_join(base: &str, rel: &str) -> (r: String)
    ensures
        r@ == joined(base@, rel@),
{
    std::path::Path::new(base).join(rel).to_string_lossy().into_owned()
}

/// `Path::parent`: the result is named `parent_of` of the text.
#[verifier::external_body]
pub(crate) fn path_parent(p: &str) -> (r: Option<String>)
    ensures
        r is Some <==> parent_of(p@) is Some,
        r is Some ==> r->0@ == parent_of(p@)->0,
{
    std::path::Path::new(p).parent().map(|q| q.to_string_lossy().into_owned())
}

/// `Path::file_stem`: the result is named `stem_of` of the text.
#[verifier::external_body]
pub(crate) fn path_file_stem(p: &str) -> (r: Option<String>)
    ensures
        r is Some <==> stem_of(p@) is Some,
        r is Some ==> r->0@ == stem_of(p@)->0,
{
    std::path::Path::new(p).file_stem().map(|s| s.to_string_lossy().into_owned())
}

/// `Path::extension`: the result is named `ext_of` of the text.
#[verifier::external_body]
pub(crate) fn path_extension(p: &str) -> (r: Option<String>)
    ensures
        r is Some <==> ext_of(p@) is Some,
        r is Some ==> r->0@ == ext_of(p@)->0,
{
    std::path::Path::new(p).extension().map(|s| s.to_string_lossy().into_owned())
}

/// `Path::with_extension`: the result is named `with_ext` of the two texts.
/// std panics when the extension holds a path separator (`/`, and `\` on
/// Windows), which the precondition rules out.
#[verifier::external_body]
pub(crate) fn path_with_extension(p: &str, ext: &str) -> (r: String)
    requires
        !ext@.contains('/'),
        !ext@.contains('\\'),
    ensures
        r@ == with_ext(p@, ext@),
{
    std::path::Path::new(p).with_extension(ext).to_string_lossy().into_owned()
}

/// What `Path::is_absolute` says of a path, read as text.
pub uninterp spec fn absolute(p: Seq<char>) -> bool;

/// `Path::is_absolute`: the answer is named `absolute` of the text.
#[verifier::external_body]
pub(crate) fn path_is_absolute(p: &str) -> (r: bool)
    ensures
        r == absolute(p@),
{
    std::path::Path::new(p).is_absolute()
}

/// `Path::is_file`. The answer is the disk's at the moment of the call; no
/// clause can state it.
#[verifier::external_body]
pub(crate) fn path_is_file(p: &str) -> bool {
    std::path::Path::new(p).is_file()
}

/// `Path::is_dir`. The answer is the disk's at the moment of the call; no
/// clause can state it.
#[verifier::external_body]
pub(crate) fn path_is_dir(p: &str) -> bool {
    std::path::Path::new(p).is_dir()
}

/// `Path::exists`. The answer is the disk's at the moment of the call; no
/// clause can state it.
#[verifier::external_body]
pub(crate) fn path_exists(p: &str) -> bool {
    std::path::Path::new(p).exists()
}

/// `std::path::MAIN_SEPARATOR`: `\` on Windows, `/` elsewhere. Which one
/// depends on the machine the library was built for, so nothing is stated.
#[verifier::external_body]
pub(crate) fn main_separator() -> char {
    std::path::MAIN_SEPARATOR
}

/// Whether the library runs on Windows (the path separator is `\`).
pub(crate) fn on_windows() -> bool {
    main_separator() == '\\'
}

} // verus!
