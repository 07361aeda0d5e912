//! Assembling a record from build-environment values.
//!
//! Reading environment variables, running a version-control command, asking
//! the compiler for its version and taking the current time are all a host
//! concern; this module holds the decisions. Given which fields are wanted
//! and which values the host could obtain, it builds the record, demands the
//! values the wanted fields need, and applies the documented fallbacks.

use vstd::prelude::*;
use vstd::string::StrSliceExecFns;
use crate::infostr::InfoStr;
use crate::record::InfoMem;
use crate::shim::BuildDate;
use crate::shim::Channel;
use crate::shim::Semver;
use crate::shim::opt_str_model;
use crate::shim::spec_semver_parse;

verus! {

/// Which fields of a record to populate from the build environment.
pub struct EnvConfig {
    pub app_name: bool,
    pub app_version: bool,
    pub app_git: bool,
    pub app_date: bool,
    pub rustc_version: bool,
    pub rustc_llvm: bool,
    pub rustc_git: bool,
    pub rustc_host: bool,
    pub rustc_channel: bool,
}

impl Default for EnvConfig {
    /// Populate every field.
    fn default() -> (r: Self)
        ensures
            r.app_name && r.app_version && r.app_git && r.app_date && r.rustc_version
                && r.rustc_llvm && r.rustc_git && r.rustc_host && r.rustc_channel,
    {
        EnvConfig {
            app_name: true,
            app_version: true,
            app_git: true,
            app_date: true,
            rustc_version: true,
            rustc_llvm: true,
            rustc_git: true,
            rustc_host: true,
            rustc_channel: true,
        }
    }
}

impl EnvConfig {
    /// Populate no field; a shortcut for enabling one or two flags with the
    /// setter functions.
    pub fn none() -> (r: Self)
        ensures
            !r.app_name && !r.app_version && !r.app_git && !r.app_date && !r.rustc_version
                && !r.rustc_llvm && !r.rustc_git && !r.rustc_host && !r.rustc_channel,
    {
        EnvConfig {
            app_name: false,
            app_version: false,
            app_git: false,
            app_date: false,
            rustc_version: false,
            rustc_llvm: false,
            rustc_git: false,
            rustc_host: false,
            rustc_channel: false,
        }
    }

    /// If `op`, populate the application name.
    pub fn set_app_name(self, op: bool) -> (r: Self)
        ensures
            r == (EnvConfig { app_name: op, ..self }),
    {
        EnvConfig { app_name: op, ..self }
    }

    /// If `op`, populate the application version.
    pub fn set_app_version(self, op: bool) -> (r: Self)
        ensures
            r == (EnvConfig { app_version: op, ..self }),
    {
        EnvConfig { app_version: op, ..self }
    }

    /// If `op`, populate the application's VCS commit.
    pub fn set_app_git(self, op: bool) -> (r: Self)
        ensures
            r == (EnvConfig { app_git: op, ..self }),
    {
        EnvConfig { app_git: op, ..self }
    }

    /// If `op`, populate the build date.
    pub fn set_app_date(self, op: bool) -> (r: Self)
        ensures
            r == (EnvConfig { app_date: op, ..self }),
    {
        EnvConfig { app_date: op, ..self }
    }

    /// If `op`, populate the compiler version.
    pub fn set_rustc_version(self, op: bool) -> (r: Self)
        ensures
            r == (EnvConfig { rustc_version: op, ..self }),
    {
        EnvConfig { rustc_version: op, ..self }
    }

    /// If `op`, populate the compiler's backend version.
    pub fn set_rustc_llvm(self, op: bool) -> (r: Self)
        ensures
            r == (EnvConfig { rustc_llvm: op, ..self }),
    {
        EnvConfig { rustc_llvm: op, ..self }
    }

    /// If `op`, populate the compiler's VCS commit.
    pub fn set_rustc_git(self, op: bool) -> (r: Self)
        ensures
            r == (EnvConfig { rustc_git: op, ..self }),
    {
        EnvConfig { rustc_git: op, ..self }
    }

    /// If `op`, populate the compiler's host platform.
    pub fn set_rustc_host(self, op: bool) -> (r: Self)
        ensures
            r == (EnvConfig { rustc_host: op, ..self }),
    {
        EnvConfig { rustc_host: op, ..self }
    }

    /// If `op`, populate the compiler's release channel.
    pub fn set_rustc_channel(self, op: bool) -> (r: Self)
        ensures
            r == (EnvConfig { rustc_channel: op, ..self }),
    {
        EnvConfig { rustc_channel: op, ..self }
    }

    /// Whether any toolchain field is wanted.
    pub open spec fn spec_wants_rustc(&self) -> bool {
        self.rustc_version || self.rustc_llvm || self.rustc_git || self.rustc_host
            || self.rustc_channel
    }

    /// Whether any toolchain field is wanted.
    pub fn wants_rustc(&self) -> (r: bool)
        ensures
            r == self.spec_wants_rustc(),
    {
        self.rustc_version || self.rustc_llvm || self.rustc_git || self.rustc_host
            || self.rustc_channel
    }
}

/// How a serialized record is written out.
pub struct WriterConfig {
    pub header: bool,
}

impl WriterConfig {
    /// If `op`, write the magic header before the serialized record.
    pub fn set_header(self, op: bool) -> (r: Self)
        ensures
            r.header == op,
    {
        WriterConfig { header: op }
    }
}

impl Default for WriterConfig {
    /// By default, write the magic header.
    fn default() -> (r: Self)
        ensures
            r.header,
    {
        WriterConfig { header: true }
    }
}

/// The first position of `c` in `s` at or after `from`.
pub open spec fn spec_find_char(s: Seq<char>, c: char, from: nat) -> Option<nat>
    decreases s.len() - from,
{
    if from >= s.len() {
        Option::None
    } else if s[from as int] == c {
        Option::Some(from)
    } else {
        spec_find_char(s, c, from + 1)
    }
}

/// What the short VCS commit extracted from a verbose compiler version
/// string is: the characters between the first opening parenthesis and the
/// next blank.
pub open spec fn spec_extract_short_git(s: Seq<char>) -> Option<Seq<char>> {
    match spec_find_char(s, '(', 0) {
        Option::None => Option::None,
        Option::Some(b) => match spec_find_char(s, ' ', b + 1) {
            Option::None => Option::None,
            Option::Some(e) => Option::Some(s.subrange((b + 1) as int, e as int)),
        },
    }
}

/// The first position of `c` in `s` at or after `from`.
fn find_char(s: &str, c: char, from: usize) -> (r: Option<usize>)
    requires
        from <= s@.len(),
    ensures
        match spec_find_char(s@, c, from as nat) {
            Option::None => r is None,
            Option::Some(i) => r == Option::Some(i as usize),
        },
    decreases s@.len() - from,
{
    let n = s.unicode_len();
    if from >= n {
        return None;
    }
    if s.get_char(from) == c {
        return Some(from);
    }
    find_char(s, c, from + 1)
}

/// Extract the short VCS commit from a verbose compiler version string: the
/// text between the first opening parenthesis and the next blank.
pub fn extract_short_git_string(s: String) -> (r: Option<String>)
    ensures
        match spec_extract_short_git(s@) {
            Option::None => r is None,
            Option::Some(g) => r is Some && r->0@ == g,
        },
{
    // Learn that the character count fits the machine, so that positions do.
    let _char_count = s.as_str().unicode_len();
    let b = match find_char(s.as_str(), '(', 0) {
        None => {
            return None;
        },
        Some(b) => b,
    };
    proof {
        lemma_find_char_in_range(s@, '(', 0);
    }
    let e = match find_char(s.as_str(), ' ', b + 1) {
        None => {
            return None;
        },
        Some(e) => e,
    };
    proof {
        lemma_find_char_in_range(s@, ' ', (b + 1) as nat);
    }
    let piece = s.as_str().substring_char(b + 1, e);
    Some(piece.to_owned())
}

/// A found position lies within the string, at or after the start.
proof fn lemma_find_char_in_range(s: Seq<char>, c: char, from: nat)
    requires
        spec_find_char(s, c, from) is Some,
    ensures
        from <= spec_find_char(s, c, from)->0 < s.len(),
    decreases s.len() - from,
{
    if from < s.len() && s[from as int] != c {
        lemma_find_char_in_range(s, c, from + 1);
    }
}

/// Toolchain facts as plain values, gathered by the host.
pub struct RustcMeta {
    /// Version of the compiler.
    pub version: Semver<'static>,
    /// Version of the compiler's code-generation backend, when known.
    pub llvm_version: Option<Semver<'static>>,
    /// The verbose version string, from which the short VCS commit is
    /// extracted.
    pub short_version_string: String,
    /// Host platform identifier.
    pub host: String,
    /// Release channel.
    pub channel: Channel,
}

/// Why a record could not be assembled from environment values.
#[derive(Debug, Clone, Copy, PartialEq, Eq, Structural)]
pub enum EnvError {
    /// The application name was wanted but not available.
    MissingName,
    /// The application version was wanted but not available.
    MissingVersion,
    /// The application version text does not parse, or does not fit.
    InvalidVersion,
    /// The build date was wanted but not available.
    MissingDate,
    /// A toolchain field was wanted but the toolchain facts were not
    /// available.
    MissingRustc,
}

/// Assemble a record from environment values: for every wanted field the
/// matching value must be there — except the application commit, which falls
/// back to `unknown` — and the version text must parse.
pub fn generate_from_values(
    cfg: &EnvConfig,
    app_name: Option<String>,
    app_version_text: Option<&str>,
    app_git: Option<String>,
    build_date: Option<BuildDate>,
    rustc: Option<RustcMeta>,
) -> (r: Result<InfoMem<'static, Vec<u8>>, EnvError>)
    ensures
        r is Ok <==> {
            &&& (cfg.app_name ==> app_name is Some)
            &&& (cfg.app_version ==> (app_version_text matches Some(t) && (spec_semver_parse(t@)
                matches Some(p) && p.0 <= usize::MAX && p.1 <= usize::MAX && p.2 <= usize::MAX)))
            &&& (cfg.app_date ==> build_date is Some)
            &&& (cfg.spec_wants_rustc() ==> rustc is Some)
        },
        r is Ok ==> {
            let im = r->Ok_0;
            &&& im.user is None
            &&& opt_str_model(&im.app.name) == (if cfg.app_name {
                Option::Some(app_name->0@)
            } else {
                Option::None
            })
            &&& (!cfg.app_version ==> im.app.version is None)
            &&& opt_str_model(&im.app.git) == (if cfg.app_git {
                Option::Some(
                    match app_git {
                        Option::Some(g) => g@,
                        Option::None => "unknown"@,
                    },
                )
            } else {
                Option::None
            })
            &&& im.app.build_date == (if cfg.app_date {
                build_date
            } else {
                Option::None
            })
            &&& (cfg.rustc_version ==> (im.rustc.version matches Some(v) && v.model()
                == rustc->0.version.model()))
            &&& (!cfg.rustc_version ==> im.rustc.version is None)
            &&& (!cfg.rustc_llvm ==> im.rustc.llvm_version is None)
            &&& im.rustc.channel == (if cfg.rustc_channel {
                Option::Some(rustc->0.channel)
            } else {
                Option::None
            })
            &&& (cfg.rustc_git ==> opt_str_model(&im.rustc.git) == spec_extract_short_git(
                rustc->0.short_version_string@,
            ))
            &&& (!cfg.rustc_git ==> im.rustc.git is None)
            &&& opt_str_model(&im.rustc.host) == (if cfg.rustc_host {
                Option::Some(rustc->0.host@)
            } else {
                Option::None
            })
        },
{
    let mut im: InfoMem<'static, Vec<u8>> = InfoMem::new();
    if cfg.app_name {
        match app_name {
            Some(n) => {
                im.app.name = Some(InfoStr::from_string(n));
            },
            None => {
                return Err(EnvError::MissingName);
            },
        }
    }
    if cfg.app_version {
        match app_version_text {
            Some(t) => match Semver::try_from_text(t) {
                Ok(v) => {
                    im.app.version = Some(v);
                },
                Err(_) => {
                    return Err(EnvError::InvalidVersion);
                },
            },
            None => {
                return Err(EnvError::MissingVersion);
            },
        }
    }
    if cfg.app_git {
        let g = match app_git {
            Some(g) => g,
            None => {
                let mut u = String::new();
                crate::util::push_str(&mut u, "unknown");
                u
            },
        };
        im.app.git = Some(InfoStr::from_string(g));
    }
    if cfg.app_date {
        match build_date {
            Some(d) => {
                im.app.build_date = Some(d);
            },
            None => {
                return Err(EnvError::MissingDate);
            },
        }
    }
    if cfg.wants_rustc() {
        let rv = match rustc {
            Some(rv) => rv,
            None => {
                return Err(EnvError::MissingRustc);
            },
        };
        if cfg.rustc_version {
            im.rustc.version = Some(rv.version);
        }
        if cfg.rustc_llvm {
            im.rustc.llvm_version = rv.llvm_version;
        }
        if cfg.rustc_git {
            im.rustc.git = match extract_short_git_string(rv.short_version_string) {
                Some(g) => Some(InfoStr::from_string(g)),
                None => None,
            };
        }
        if cfg.rustc_host {
            im.rustc.host = Some(InfoStr::from_string(rv.host));
        }
        if cfg.rustc_channel {
            im.rustc.channel = Some(rv.channel);
        }
    }
    Ok(im)
}

/// The bytes a record is written out as: with or without the magic header,
/// as the writer configuration says.
pub fn info_bytes<T: crate::codec::PayloadCodec>(im: &InfoMem<'_, T>, cfg: &WriterConfig) -> (r:
    Vec<u8>)
    ensures
        r@ == if cfg.header {
            crate::wire::magic_bytes() + crate::wire::enc_record(
                im.fixed_model(),
                crate::codec::user_data(im),
            )
        } else {
            crate::wire::enc_record(im.fixed_model(), crate::codec::user_data(im))
        },
{
    if cfg.header {
        crate::codec::to_allocvec_magic(im)
    } else {
        crate::codec::to_allocvec(im)
    }
}

} // verus!
