//! Engine versions and the compatibility of recorded plans.
use vstd::prelude::*;

use crate::error::NixInstallerError;

verus! {

/// The version of this engine, in semantic-versioning notation.
pub const ENGINE_VERSION: &'static str = "0.1.0";

/// A semantic version, kept in its textual form (`1.2.3`, `1.2.3-rc.1+build`).
#[derive(Clone, Debug, PartialEq, Eq)]
pub struct Version {
    pub text: String,
}

impl View for Version {
    type V = Seq<char>;

    open spec fn view(&self) -> Seq<char> {
        self.text@
    }
}

impl Version {
    pub fn new(text: String) -> (r: Self)
        ensures
            r@ == text@,
    {
        Version { text }
    }

    pub fn as_str(&self) -> (r: &str)
        ensures
            r@ == self@,
    {
        self.text.as_str()
    }
}

/// The version of the running engine.
pub fn current_version() -> (r: Version)
    ensures
        r@ == ENGINE_VERSION@,
{
    Version { text: ENGINE_VERSION.to_string() }
}

/// Whether `requirement` reads as a requirement in semver's notation (a bare
/// version means a caret requirement), `version` reads as a version, and the
/// version satisfies the requirement.
pub uninterp spec fn requirement_matches(requirement: Seq<char>, version: Seq<char>) -> bool;

/// Relies on semver: `VersionReq::parse` reads the requirement, `Version::parse`
/// reads the version, and `VersionReq::matches` compares them.
#[verifier::external_body]
pub(crate) fn semver_matches(requirement: &str, version: &str) -> (r: Result<bool, String>)
    ensures
        r is Ok ==> r->Ok_0 == requirement_matches(requirement@, version@),
        r is Err ==> !requirement_matches(requirement@, version@),
{
    let req = semver::VersionReq::parse(requirement).map_err(|e| e.to_string())?;
    let ver = semver::Version::parse(version).map_err(|e| e.to_string())?;
    Ok(req.matches(&ver))
}

/// The verdict on a recorded version `plan`, given what matching it as a
/// requirement against the running version `binary` returned.
pub fn compatibility_verdict(plan: &Version, binary: Version, matched: Result<bool, String>) -> (r: Result<(), NixInstallerError>)
    ensures
        matched == Ok::<bool, String>(true) ==> r is Ok,
        matched == Ok::<bool, String>(false) ==> r == Err::<(), NixInstallerError>(
            NixInstallerError::IncompatibleVersion { binary, plan: *plan },
        ),
        matched is Err ==> r == Err::<(), NixInstallerError>(
            NixInstallerError::InvalidVersionRequirement(plan.text, matched->Err_0),
        ),
{
    match matched {
        Ok(true) => Ok(()),
        Ok(false) => Err(NixInstallerError::IncompatibleVersion { binary, plan: Version { text: plan.text.clone() } }),
        Err(e) => Err(NixInstallerError::InvalidVersionRequirement(plan.text.clone(), e)),
    }
}

} // verus!
