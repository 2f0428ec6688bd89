//! Version requirements of configuration files.

use vstd::prelude::*;
use crate::error::Error;
use crate::error::ErrorView;

verus! {

/// Whether a version satisfies a requirement, as the `semver` crate reads
/// the two: `None` where it cannot read one of them.
pub uninterp spec fn semver_matches(requirement: Seq<char>, version: Seq<char>) -> Option<bool>;

/// Reads a version with `semver::Version::parse` and a requirement with
/// `semver::VersionReq::parse`, and asks `VersionReq::matches` whether the
/// one satisfies the other. The result depends on the two texts alone.
#[verifier::external_body]
fn matches(requirement: &str, version: &str) -> (r: Option<bool>)
    ensures
        r == semver_matches(requirement@, version@),
{
    let version = semver::Version::parse(version).ok()?;
    let requirement = semver::VersionReq::parse(requirement).ok()?;
    Some(requirement.matches(&version))
}

/// What a comparison of versions means for a file: it may be read only if
/// both texts could be read and the version satisfies the requirement.
pub open spec fn verdict_spec(outcome: Option<bool>) -> Result<(), ErrorView> {
    match outcome {
        Some(true) => Ok(()),
        Some(false) => Err(ErrorView::IncompatibleVersion),
        None => Err(ErrorView::InvalidVersion),
    }
}

/// Turns the outcome of a comparison of versions into a decision.
pub fn verdict(outcome: Option<bool>) -> (r: Result<(), Error>)
    ensures
        match r {
            Ok(()) => verdict_spec(outcome) == Ok::<(), ErrorView>(()),
            Err(e) => verdict_spec(outcome) == Err::<(), ErrorView>(e@),
        },
{
    match outcome {
        Some(true) => Ok(()),
        Some(false) => Err(Error::IncompatibleVersion),
        None => Err(Error::InvalidVersion),
    }
}

/// Checks that the running tool may read a file that states `requirement`.
pub fn check_version(requirement: &str, version: &str) -> (r: Result<(), Error>)
    ensures
        match r {
            Ok(()) => verdict_spec(semver_matches(requirement@, version@)) == Ok::<(), ErrorView>(
                (),
            ),
            Err(e) => verdict_spec(semver_matches(requirement@, version@)) == Err::<
                (),
                ErrorView,
            >(e@),
        },
{
    verdict(matches(requirement, version))
}

} // verus!
