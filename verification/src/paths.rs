//! The two path operations of std that the library relies on, taken on
//! paths spelled as text.
use vstd::prelude::*;

verus! {

/// The file stem std's `Path::file_stem` gives for a path spelled `path`
/// under the path syntax of the platform the library is built for.
pub uninterp spec fn path_file_stem(path: Seq<char>) -> Option<Seq<char>>;

/// The parent std's `Path::parent` gives for a path spelled `path`, as text,
/// under the path syntax of the platform the library is built for.
pub uninterp spec fn path_parent(path: Seq<char>) -> Option<Seq<char>>;

/// Calls `std::path::Path::file_stem` on the path spelled `path`.
/// Trusted: the result is the stem that function gives for this text, which
/// depends on the text alone within one build (the separators it honours are
/// those of the target platform, `\` among them on Windows); what the stem
/// is, is not stated here.
#[verifier::external_body]
pub(crate) fn file_stem_of(path: &str) -> (r: Option<String>)
    ensures
        r matches Some(s) ==> path_file_stem(path@) == Some(s@),
        r is None ==> path_file_stem(path@) is None,
{
    std::path::Path::new(path).file_stem().map(|s| s.to_string_lossy().into_owned())
}

/// Calls `std::path::Path::parent` on the path spelled `path` and displays
/// the parent as text. Trusted: the result is the parent that function
/// gives for this text, which depends on the text alone within one build
/// (the separators it honours are those of the target platform, `\` among
/// them on Windows); what the parent is, is not stated here.
#[verifier::external_body]
pub(crate) fn parent_of(path: &str) -> (r: Option<String>)
    ensures
        r matches Some(s) ==> path_parent(path@) == Some(s@),
        r is None ==> path_parent(path@) is None,
{
    std::path::Path::new(path).parent().map(|p| p.display().to_string())
}

} // verus!
