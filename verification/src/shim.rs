//! Value types for versions, release channels and build timestamps.

use vstd::prelude::*;
use crate::infostr::InfoStr;

verus! {

/// Release channel of the compiler that produced a record.
#[derive(Debug, Clone, Copy, PartialEq, Eq, Structural)]
pub enum Channel {
    /// Development release channel.
    Dev,
    /// Nightly release channel.
    Nightly,
    /// Beta release channel.
    Beta,
    /// Stable release channel.
    Stable,
}

/// A compact semantic version: three numbers plus optional pre-release and
/// build tags.
#[derive(Debug, PartialEq)]
pub struct Semver<'a> {
    pub major: usize,
    pub minor: usize,
    pub patch: usize,
    pub pre: Option<InfoStr<'a>>,
    pub build: Option<InfoStr<'a>>,
}

/// Mathematical image of a [`Semver`]: the numbers at wire width, the tags
/// as character sequences.
pub ghost struct SemverModel {
    pub major: u64,
    pub minor: u64,
    pub patch: u64,
    pub pre: Option<Seq<char>>,
    pub build: Option<Seq<char>>,
}

pub open spec fn opt_str_model(o: &Option<InfoStr<'_>>) -> Option<Seq<char>> {
    match o {
        Option::None => Option::None,
        Option::Some(s) => Option::Some(s@),
    }
}

impl<'a> Semver<'a> {
    pub open spec fn model(&self) -> SemverModel {
        SemverModel {
            major: self.major as u64,
            minor: self.minor as u64,
            patch: self.patch as u64,
            pre: opt_str_model(&self.pre),
            build: opt_str_model(&self.build),
        }
    }

    /// The schema version of the records this library writes.
    pub fn this_version() -> (r: Semver<'static>)
        ensures
            r.model() == (SemverModel {
                major: 0,
                minor: 1,
                patch: 0,
                pre: Option::None,
                build: Option::None,
            }),
    {
        Semver { major: 0, minor: 1, patch: 0, pre: Option::None, build: Option::None }
    }
}

/// Error for version values that do not fit this library's types.
#[derive(Debug, Clone, Copy)]
pub struct TryFromVersionError {
    msg: &'static str,
}

impl TryFromVersionError {
    /// A short description of what was wrong.
    pub fn message(&self) -> &'static str {
        self.msg
    }
}

/// A build timestamp: calendar date, time of day, and the local offset from
/// UTC in minutes, split into direction and magnitude.
#[derive(Debug, Clone, Copy, PartialEq, Eq, Structural)]
pub struct BuildDate {
    pub year: u16,
    pub month: u8,
    pub day: u8,
    pub hour: u8,
    pub minute: u8,
    pub second: u8,
    /// True when the offset is west of UTC (a negative offset).
    pub offset_west: bool,
    /// Magnitude of the offset from UTC, in minutes.
    pub offset_minutes: u16,
}

/// What `semver::Version::parse` yields on a given text, as major, minor and
/// patch numbers plus the pre-release and build tags (empty when absent).
pub uninterp spec fn spec_semver_parse(s: Seq<char>) -> Option<(u64, u64, u64, Seq<char>, Seq<char>)>;

/// Relies on `semver::Version::parse`: the outcome is a function of the text
/// alone, and the parsed version exposes its numbers and tags as plain values.
#[verifier::external_body]
fn parse_version_text(s: &str) -> (r: Option<(u64, u64, u64, String, String)>)
    ensures
        r is Some <==> spec_semver_parse(s@) is Some,
        r is Some ==> {
            let p = spec_semver_parse(s@)->0;
            let q = r->0;
            q.0 == p.0 && q.1 == p.1 && q.2 == p.2 && q.3@ == p.3 && q.4@ == p.4
        },
{
    match semver::Version::parse(s) {
        Ok(v) => Some((
            v.major,
            v.minor,
            v.patch,
            v.pre.as_str().to_owned(),
            v.build.as_str().to_owned(),
        )),
        Err(_) => None,
    }
}

impl<'a> Semver<'a> {
    /// Build a [`Semver`] from plain parts, as a parsed version reports them:
    /// empty tags mean absent tags, and each number must fit in `usize`.
    pub fn try_from_parts(major: u64, minor: u64, patch: u64, pre: String, build: String) -> (r:
        Result<Semver<'static>, TryFromVersionError>)
        ensures
            major <= usize::MAX && minor <= usize::MAX && patch <= usize::MAX <==> r is Ok,
            r is Ok ==> r->Ok_0.model() == (SemverModel {
                major: major,
                minor: minor,
                patch: patch,
                pre: if pre@.len() == 0 { Option::None } else { Option::Some(pre@) },
                build: if build@.len() == 0 { Option::None } else { Option::Some(build@) },
            }),
    {
        if major > usize::MAX as u64 {
            return Err(TryFromVersionError { msg: "semver major version exceeds usize" });
        }
        if minor > usize::MAX as u64 {
            return Err(TryFromVersionError { msg: "semver minor version exceeds usize" });
        }
        if patch > usize::MAX as u64 {
            return Err(TryFromVersionError { msg: "semver patch version exceeds usize" });
        }
        let pre_opt: Option<InfoStr<'static>> = if pre.as_str().is_empty() {
            None
        } else {
            Some(InfoStr::from_string(pre))
        };
        let build_opt: Option<InfoStr<'static>> = if build.as_str().is_empty() {
            None
        } else {
            Some(InfoStr::from_string(build))
        };
        Ok(Semver {
            major: major as usize,
            minor: minor as usize,
            patch: patch as usize,
            pre: pre_opt,
            build: build_opt,
        })
    }

    /// Parse a semantic-version text into a [`Semver`], rejecting texts the
    /// grammar refuses and numbers that do not fit in `usize`.
    pub fn try_from_text(text: &str) -> (r: Result<Semver<'static>, TryFromVersionError>)
        ensures
            match spec_semver_parse(text@) {
                Option::None => r is Err,
                Option::Some(p) => {
                    &&& (p.0 <= usize::MAX && p.1 <= usize::MAX && p.2 <= usize::MAX <==> r is Ok)
                    &&& r is Ok ==> r->Ok_0.model() == (SemverModel {
                        major: p.0,
                        minor: p.1,
                        patch: p.2,
                        pre: if p.3.len() == 0 { Option::None } else { Option::Some(p.3) },
                        build: if p.4.len() == 0 { Option::None } else { Option::Some(p.4) },
                    })
                },
            },
    {
        match parse_version_text(text) {
            None => Err(TryFromVersionError { msg: "not a valid semantic version" }),
            Some((major, minor, patch, pre, build)) => Semver::try_from_parts(
                major,
                minor,
                patch,
                pre,
                build,
            ),
        }
    }
}

} // verus!
