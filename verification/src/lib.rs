//! Embeds structured build metadata (application version, VCS commit, build
//! date, toolchain version, optional user payload) as a compact binary
//! record, and decodes such records again — possibly from memory that can
//! only be read one byte at a time.
//!
//! The wire format is a fixed-order, length-delimited binary encoding with
//! no field names or type tags. A record may be preceded by arbitrary bytes
//! and a four-byte magic header; a small state machine locates the header
//! inside a larger byte stream. Decoding reads bytes through an abstract
//! sequential source, so the same codec runs over an in-memory slice, an
//! address range with a caller-supplied fetch procedure, or any similar
//! supplier — and the user payload can be left undecoded, for a second,
//! caller-chosen decode.

use vstd::prelude::*;

mod error;
mod infostr;
mod shim;
mod record;
mod util;
pub mod wire;
mod source;
pub mod magic;
mod codec;
pub mod laws;
mod ldscript;
mod envcfg;
mod device;

pub use error::Error;
pub use error::SequentialReadError;
pub use infostr::InfoStr;
pub use shim::Channel;
pub use shim::Semver;
pub use shim::SemverModel;
pub use shim::TryFromVersionError;
pub use shim::BuildDate;
pub use shim::spec_semver_parse;
pub use record::InfoMem;
pub use record::AppInfo;
pub use record::AppInfoModel;
pub use record::RustcInfo;
pub use record::RustcInfoModel;
pub use record::FixedModel;
pub use record::Sealed;
pub use source::ByteSource;
pub use source::SequentialRead;
pub use source::SliceSource;
pub use source::FetchSource;
pub use source::SeqSource;
pub use source::fetch_agrees;
pub use magic::Magic;
pub use magic::scan_magic;
pub use codec::Deferred;
pub use codec::PayloadCodec;
pub use codec::user_data;
pub use codec::from_bytes;
pub use codec::from_bytes_magic;
pub use codec::from_seq;
pub use codec::from_seq_magic;
pub use codec::from_seq_magic_deferred;
pub use codec::to_allocvec;
pub use codec::to_allocvec_magic;
pub use codec::to_allocvec_magic as to_stdvec_magic;
pub use codec::to_allocvec_tagged;
pub use codec::to_slice_magic;
pub use ldscript::InsertType;
pub use ldscript::LdConfig;
pub use ldscript::BareSectionConfig;
pub use ldscript::BareAppendConfig;
pub use ldscript::HostedConfig;
pub use ldscript::generate_header;
pub use ldscript::generate_body;
pub use ldscript::generate_footer;
pub use ldscript::generate_script;
pub use envcfg::EnvConfig;
pub use envcfg::WriterConfig;
pub use envcfg::EnvError;
pub use envcfg::RustcMeta;
pub use envcfg::extract_short_git_string;
pub use envcfg::generate_from_values;
pub use envcfg::info_bytes;
pub use device::InfoMemPtr;

verus! {

} // verus!
