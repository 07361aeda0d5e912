//! The top-level record and its sections.

use vstd::prelude::*;
use crate::infostr::InfoStr;
use crate::shim::BuildDate;
use crate::shim::Channel;
use crate::shim::Semver;
use crate::shim::SemverModel;
use crate::shim::opt_str_model;

verus! {

/// Marker for the types a record may carry as its user payload.
pub trait Sealed {
}

/// Information about the application a record describes.
#[derive(Debug, PartialEq)]
pub struct AppInfo<'a> {
    /// Name of the application.
    pub name: Option<InfoStr<'a>>,
    /// Semantic version of the application.
    pub version: Option<Semver<'a>>,
    /// VCS commit of the application's source.
    pub git: Option<InfoStr<'a>>,
    /// Build timestamp of the application.
    pub build_date: Option<BuildDate>,
}

/// Information about the compiler that built the application.
#[derive(Debug, PartialEq)]
pub struct RustcInfo<'a> {
    /// Semantic version of the compiler.
    pub version: Option<Semver<'a>>,
    /// Version of the compiler's code-generation backend.
    pub llvm_version: Option<Semver<'a>>,
    /// Release channel of the compiler.
    pub channel: Option<Channel>,
    /// VCS commit of the compiler's source.
    pub git: Option<InfoStr<'a>>,
    /// Host platform identifier of the compiler.
    pub host: Option<InfoStr<'a>>,
}

/// Top-level container for information embedded in a binary.
///
/// The schema version always comes first in the encoding, so that a decoder
/// meeting an unknown future schema can still read it and decide. The user
/// payload, when present, always comes last, so that it can be left
/// undecoded.
#[derive(Debug, PartialEq)]
pub struct InfoMem<'a, T> where T: Sealed {
    /// Version of the record schema itself; always the first field encoded.
    pub version: Semver<'a>,
    /// Information about the application.
    pub app: AppInfo<'a>,
    /// Information about the compiler.
    pub rustc: RustcInfo<'a>,
    /// User-specific payload, carried as-is; absent by default.
    pub user: Option<T>,
}

/// Mathematical image of an [`AppInfo`].
pub ghost struct AppInfoModel {
    pub name: Option<Seq<char>>,
    pub version: Option<SemverModel>,
    pub git: Option<Seq<char>>,
    pub build_date: Option<BuildDate>,
}

/// Mathematical image of a [`RustcInfo`].
pub ghost struct RustcInfoModel {
    pub version: Option<SemverModel>,
    pub llvm_version: Option<SemverModel>,
    pub channel: Option<Channel>,
    pub git: Option<Seq<char>>,
    pub host: Option<Seq<char>>,
}

/// Mathematical image of the fixed part of a record: everything except the
/// user payload's bytes, of which only the presence remains.
pub ghost struct FixedModel {
    pub version: SemverModel,
    pub app: AppInfoModel,
    pub rustc: RustcInfoModel,
    pub has_user: bool,
}

pub open spec fn opt_semver_model(o: &Option<Semver<'_>>) -> Option<SemverModel> {
    match o {
        Option::None => Option::None,
        Option::Some(v) => Option::Some(v.model()),
    }
}

impl<'a> AppInfo<'a> {
    pub open spec fn model(&self) -> AppInfoModel {
        AppInfoModel {
            name: opt_str_model(&self.name),
            version: opt_semver_model(&self.version),
            git: opt_str_model(&self.git),
            build_date: self.build_date,
        }
    }
}

impl<'a> RustcInfo<'a> {
    pub open spec fn model(&self) -> RustcInfoModel {
        RustcInfoModel {
            version: opt_semver_model(&self.version),
            llvm_version: opt_semver_model(&self.llvm_version),
            channel: self.channel,
            git: opt_str_model(&self.git),
            host: opt_str_model(&self.host),
        }
    }
}

impl<'a, T: Sealed> InfoMem<'a, T> {
    /// The fixed part of this record, with the payload reduced to presence.
    pub open spec fn fixed_model(&self) -> FixedModel {
        FixedModel {
            version: self.version.model(),
            app: self.app.model(),
            rustc: self.rustc.model(),
            has_user: self.user is Some,
        }
    }
}

impl<'a> Default for AppInfo<'a> {
    /// An [`AppInfo`] with every field absent.
    fn default() -> (r: Self)
        ensures
            r.model() == (AppInfoModel {
                name: Option::None,
                version: Option::None,
                git: Option::None,
                build_date: Option::None,
            }),
    {
        AppInfo { name: None, version: None, git: None, build_date: None }
    }
}

impl<'a> Default for RustcInfo<'a> {
    /// A [`RustcInfo`] with every field absent.
    fn default() -> (r: Self)
        ensures
            r.model() == (RustcInfoModel {
                version: Option::None,
                llvm_version: Option::None,
                channel: Option::None,
                git: Option::None,
                host: Option::None,
            }),
    {
        RustcInfo { version: None, llvm_version: None, channel: None, git: None, host: None }
    }
}

/// The fixed part of a record as [`Default`] builds it: this library's own
/// schema version, every optional field absent.
pub open spec fn default_fixed_model() -> FixedModel {
    FixedModel {
        version: SemverModel {
            major: 0,
            minor: 1,
            patch: 0,
            pre: Option::None,
            build: Option::None,
        },
        app: AppInfoModel {
            name: Option::None,
            version: Option::None,
            git: Option::None,
            build_date: Option::None,
        },
        rustc: RustcInfoModel {
            version: Option::None,
            llvm_version: Option::None,
            channel: Option::None,
            git: Option::None,
            host: Option::None,
        },
        has_user: false,
    }
}

impl<'a, T: Sealed> Default for InfoMem<'a, T> {
    /// An empty record: the schema version of this library, and every other
    /// field absent.
    fn default() -> (r: Self)
        ensures
            r.fixed_model() == default_fixed_model(),
            r.user is None,
    {
        InfoMem {
            version: Semver::this_version(),
            app: Default::default(),
            rustc: Default::default(),
            user: Option::<T>::None,
        }
    }
}

impl<'a, T: Sealed> InfoMem<'a, T> {
    /// Wrapper over the [`Default`] implementation.
    pub fn new() -> (r: Self)
        ensures
            r.fixed_model() == default_fixed_model(),
            r.user is None,
    {
        Self::default()
    }
}

} // verus!
