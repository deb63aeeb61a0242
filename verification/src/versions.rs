//! The order of two versions, as the crate `version_compare` reads them.

use vstd::prelude::*;

verus! {

/// How one version stands to another. These are the comparison operators of
/// `version_compare`; a comparison of two versions gives `Eq`, `Lt` or `Gt`.
#[derive(Clone, Copy, Debug, PartialEq, Eq)]
pub enum VersionOrder {
    /// Equal.
    Eq,
    /// Not equal.
    Ne,
    /// Less.
    Lt,
    /// Less or equal.
    Le,
    /// Greater or equal.
    Ge,
    /// Greater.
    Gt,
}

/// How the version `a` stands to the version `b` in the reading of
/// `version_compare`, or `None` where it can read one of the two as a
/// version no more than the other.
pub uninterp spec fn version_order(a: Seq<char>, b: Seq<char>) -> Option<VersionOrder>;

/// `version_compare::compare`: how `a` stands to `b`, `None` for its error,
/// which says that one of the two texts is no version. The contract only
/// gives the outcome its name, `version_order`.
#[verifier::external_body]
pub(crate) fn compare_versions(a: &str, b: &str) -> (r: Option<VersionOrder>)
    ensures
        r == version_order(a@, b@),
{
    match version_compare::compare(a, b) {
        Ok(version_compare::Cmp::Eq) => Some(VersionOrder::Eq),
        Ok(version_compare::Cmp::Ne) => Some(VersionOrder::Ne),
        Ok(version_compare::Cmp::Lt) => Some(VersionOrder::Lt),
        Ok(version_compare::Cmp::Le) => Some(VersionOrder::Le),
        Ok(version_compare::Cmp::Ge) => Some(VersionOrder::Ge),
        Ok(version_compare::Cmp::Gt) => Some(VersionOrder::Gt),
        Err(()) => None,
    }
}

} // verus!
