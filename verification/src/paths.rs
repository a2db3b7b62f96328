//! Path arithmetic on textual paths, through `std::path`.
use vstd::prelude::*;

verus! {

/// `base` joined with `part`, as `Path::join` computes it (shown lossily as text).
pub uninterp spec fn spec_path_join(base: Seq<char>, part: Seq<char>) -> Seq<char>;

/// The parent of `p`, as `Path::parent` computes it.
pub uninterp spec fn spec_path_parent(p: Seq<char>) -> Option<Seq<char>>;

/// The final component of `p`, as `Path::file_name` computes it.
pub uninterp spec fn spec_path_file_name(p: Seq<char>) -> Option<Seq<char>>;

/// Whether `p` starts with the path `base`, component by component (`Path::starts_with`).
pub uninterp spec fn spec_path_starts_with(p: Seq<char>, base: Seq<char>) -> bool;

/// Calls `Path::join`; the result is named by `spec_path_join`.
#[verifier::external_body]
pub(crate) fn path_join(base: &str, part: &str) -> (r: String)
    ensures
        r@ == spec_path_join(base@, part@),
{
    std::path::Path::new(base).join(part).to_string_lossy().into_owned()
}

/// Calls `Path::parent`; the result is named by `spec_path_parent`.
#[verifier::external_body]
pub(crate) fn path_parent(p: &str) -> (r: Option<String>)
    ensures
        match r {
            Some(s) => spec_path_parent(p@) == Some(s@),
            None => spec_path_parent(p@) is None,
        },
{
    std::path::Path::new(p).parent().map(|q| q.to_string_lossy().into_owned())
}

/// Calls `Path::file_name`; the result is named by `spec_path_file_name`.
#[verifier::external_body]
pub(crate) fn path_file_name(p: &str) -> (r: Option<String>)
    ensures
        match r {
            Some(s) => spec_path_file_name(p@) == Some(s@),
            None => spec_path_file_name(p@) is None,
        },
{
    std::path::Path::new(p).file_name().map(|q| q.to_string_lossy().into_owned())
}

/// Calls `Path::starts_with`; the result is named by `spec_path_starts_with`.
#[verifier::external_body]
pub(crate) fn path_starts_with(p: &str, base: &str) -> (r: bool)
    ensures
        r == spec_path_starts_with(p@, base@),
{
    std::path::Path::new(p).starts_with(base)
}

} // verus!
