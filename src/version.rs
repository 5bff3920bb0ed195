//! Semantic-version comparison, delegated to the `semver` crate.

use vstd::prelude::*;

verus! {

/// Whether `semver::Version::parse` accepts the text `s`.
pub uninterp spec fn is_semver(s: Seq<char>) -> bool;

/// For two texts that `semver::Version::parse` accepts, whether the version
/// parsed from `a` orders strictly before the one parsed from `b` under
/// `semver::Version`'s `Ord` (major, minor, patch, then pre-release
/// precedence, then build metadata).
pub uninterp spec fn semver_precedes(a: Seq<char>, b: Seq<char>) -> bool;

/// Whether `new` names a strictly later version than `current`: both texts
/// are semantic versions and `current` orders before `new`.
pub open spec fn version_increases(current: Seq<char>, new: Seq<char>) -> bool {
    is_semver(current) && is_semver(new) && semver_precedes(current, new)
}

/// Relies on `semver::Version::parse`, which fails on the empty text, and on
/// the derived `<` of `semver::Version`, under which no version precedes
/// itself.
#[verifier::external_body]
fn compare_versions(a: &str, b: &str) -> (r: Option<bool>)
    ensures
        r is Some <==> (is_semver(a@) && is_semver(b@)),
        r matches Some(lt) ==> lt == semver_precedes(a@, b@),
        a@ == b@ ==> r != Some(true),
        a@.len() == 0 || b@.len() == 0 ==> r is None,
{
    match (semver::Version::parse(a), semver::Version::parse(b)) {
        (Ok(x), Ok(y)) => Some(x < y),
        _ => None,
    }
}

/// Whether `new` is a strictly later semantic version than `current`; false
/// whenever either text is not a semantic version.
pub fn is_newer_version(current: &str, new: &str) -> (r: bool)
    ensures
        r == version_increases(current@, new@),
        current@ == new@ ==> !r,
{
    match compare_versions(current, new) {
        Some(lt) => lt,
        None => false,
    }
}

} // verus!
