//! The compatibility tag: a semantic version identifying which codec
//! revision produced a compiled artifact, carried verbatim as the bytes of a
//! named metadata section.

use vstd::prelude::*;

verus! {

/// A parsed semantic version: major.minor.patch, an optional pre-release
/// label and optional build metadata.
#[derive(Debug, PartialEq, Eq, Hash)]
pub struct SemVer {
    pub major: u64,
    pub minor: u64,
    pub patch: u64,
    pub pre: String,
    pub build: String,
}

/// Mathematical model of a `SemVer`.
pub ghost struct SemVerV {
    pub major: u64,
    pub minor: u64,
    pub patch: u64,
    pub pre: Seq<char>,
    pub build: Seq<char>,
}

impl View for SemVer {
    type V = SemVerV;

    open spec fn view(&self) -> SemVerV {
        SemVerV {
            major: self.major,
            minor: self.minor,
            patch: self.patch,
            pre: self.pre@,
            build: self.build@,
        }
    }
}

/// What parsing a semantic-version string yields: `None` where the text is
/// not a valid semantic version, the parsed parts otherwise.  The outcome
/// depends on the characters alone.
pub uninterp spec fn semver_of(s: Seq<char>) -> Option<SemVerV>;

/// Relies on semver's `Version::parse`: a pure function of the text, which
/// returns the version's numeric parts, pre-release label and build
/// metadata on success and an error value otherwise.
#[verifier::external_body]
pub(crate) fn parse_semver(s: &str) -> (r: Option<SemVer>)
    ensures
        match r {
            Some(v) => semver_of(s@) == Some(v@),
            None => semver_of(s@) is None,
        },
{
    match semver::Version::parse(s) {
        Ok(v) => Some(
            SemVer {
                major: v.major,
                minor: v.minor,
                patch: v.patch,
                pre: v.pre.as_str().to_owned(),
                build: v.build.as_str().to_owned(),
            },
        ),
        Err(_) => None,
    }
}

} // verus!
