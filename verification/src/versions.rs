//! Version-number comparison through the `version_compare` crate.
use vstd::prelude::*;

verus! {

/// How one version number compares with another.
#[derive(Debug, Clone, Copy, PartialEq, Eq)]
pub enum VersionOrder {
    Eq,
    Ne,
    Lt,
    Le,
    Ge,
    Gt,
}

/// How version `a` compares with version `b`, or `None` when either cannot be parsed.
pub uninterp spec fn spec_version_compare(a: Seq<char>, b: Seq<char>) -> Option<VersionOrder>;

/// Calls `version_compare::compare(a, b)`; the result is named by `spec_version_compare`,
/// and, as the function documents, it is always `Eq`, `Lt` or `Gt`.
#[verifier::external_body]
pub(crate) fn compare_versions(a: &str, b: &str) -> (r: Option<VersionOrder>)
    ensures
        r == spec_version_compare(a@, b@),
        r matches Some(o) ==> (o is Eq || o is Lt || o is Gt),
{
    match version_compare::compare(a, b) {
        Ok(version_compare::Cmp::Eq) => Some(VersionOrder::Eq),
        Ok(version_compare::Cmp::Ne) => Some(VersionOrder::Ne),
        Ok(version_compare::Cmp::Lt) => Some(VersionOrder::Lt),
        Ok(version_compare::Cmp::Le) => Some(VersionOrder::Le),
        Ok(version_compare::Cmp::Ge) => Some(VersionOrder::Ge),
        Ok(version_compare::Cmp::Gt) => Some(VersionOrder::Gt),
        Err(()) => None,
    }
}

} // verus!
