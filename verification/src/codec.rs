//! The record codec: field-by-field encoding and decoding in fixed schema
//! order.
//!
//! Decoding reads through any [`ByteSource`] and never looks ahead or backs
//! up; encoding appends to a byte vector. Every function is specified
//! against the wire model in [`crate::wire`]: what an exact source yields is
//! parsed precisely as the `prs_*` functions say, errors included, and what
//! an encoder writes is exactly the `enc_*` image of its value.

use vstd::prelude::*;
use vstd::arithmetic::power2::pow2;
use vstd::slice::slice_to_vec;
use vstd::string::StringSliceAdditionalSpecFns;
use crate::error::Error;
use crate::infostr::InfoStr;
use crate::record::AppInfo;
use crate::record::FixedModel;
use crate::record::RustcInfo;
use crate::record::Sealed;
use crate::record::InfoMem;
use crate::shim::BuildDate;
use crate::shim::Channel;
use crate::shim::Semver;
use crate::source::ByteSource;
use crate::source::FetchSource;
use crate::source::SeqSource;
use crate::source::SequentialRead;
use crate::source::src_state;
use crate::error::SequentialReadError;
use crate::util::string_from_utf8;
use crate::wire::PState;
use crate::wire::enc_varint;
use crate::wire::lemma_prs_varint_bound;
use crate::wire::prs_byte;
use crate::wire::prs_flag;
use crate::wire::prs_str;
use crate::wire::prs_take;
use crate::wire::prs_u16;
use crate::wire::prs_usize;
use crate::wire::prs_varint;
use crate::wire::prs_varint_st;

verus! {

/// Read one group of a variable-length integer and recurse for the rest;
/// `depth` counts the groups already read.
fn decode_varint_rec<S: ByteSource>(src: &mut S, depth: usize) -> (r: Result<u64, Error>)
    requires
        old(src).wf(),
        depth <= 9,
    ensures
        final(src).wf(),
        old(src).exact() ==> final(src).exact(),
        final(src).spec_budget() <= old(src).spec_budget(),
        r is Ok ==> r->Ok_0 < pow2((64 - 7 * depth) as nat),
        old(src).exact() ==> match prs_varint(old(src).remaining(), depth as nat) {
            Ok(p) => r == Ok::<u64, Error>(p.0 as u64) && final(src).remaining() == old(
                src,
            ).remaining().skip(p.1 as int) && final(src).scratch_left() == old(src).scratch_left(),
            Err(e) => r == Err::<u64, Error>(e),
        },
    decreases 10 - depth,
{
    let ghost exact0 = old(src).exact();
    let ghost rem0 = old(src).remaining();
    let byte = match src.pop() {
        Ok(b) => b,
        Err(e) => {
            return Err(e);
        },
    };
    let low = (byte & 0x7f) as u64;
    proof {
        assert(low == byte % 0x80) by (bit_vector)
            requires
                low == (byte & 0x7f) as u64,
        ;
        vstd::arithmetic::power2::lemma2_to64();
    }
    if depth == 9 {
        if byte <= 1 {
            Ok(byte as u64)
        } else {
            Err(Error::MalformedValue)
        }
    } else if byte < 0x80 {
        proof {
            assert(pow2(7) <= pow2((64 - 7 * depth) as nat)) by {
                if 7 < 64 - 7 * depth {
                    vstd::arithmetic::power2::lemma_pow2_strictly_increases(
                        7,
                        (64 - 7 * depth) as nat,
                    );
                }
            }
        }
        Ok(byte as u64)
    } else {
        let rest = match decode_varint_rec(src, depth + 1) {
            Ok(v) => v,
            Err(e) => {
                return Err(e);
            },
        };
        proof {
            vstd::arithmetic::power2::lemma_pow2_adds((64 - 7 * (depth + 1)) as nat, 7);
            assert(rest * 0x80 <= (pow2((64 - 7 * (depth + 1)) as nat) - 1) * 0x80) by (
            nonlinear_arith)
                requires
                    rest <= pow2((64 - 7 * (depth + 1)) as nat) - 1,
            ;
            vstd::arithmetic::power2::lemma2_to64_rest();
        }
        let v = (byte - 0x80) as u64 + rest * 0x80;
        proof {
            if exact0 && prs_varint(rem0, depth as nat) is Ok {
                lemma_prs_varint_bound(rem0, depth as nat);
            }
        }
        Ok(v)
    }
}

/// Read one variable-length integer.
fn decode_varint<S: ByteSource>(src: &mut S) -> (r: Result<u64, Error>)
    requires
        old(src).wf(),
    ensures
        final(src).wf(),
        old(src).exact() ==> final(src).exact(),
        final(src).spec_budget() <= old(src).spec_budget(),
        old(src).exact() ==> match prs_varint_st(src_state(old(src))) {
            Ok(p) => r == Ok::<u64, Error>(p.0 as u64) && src_state(final(src)) == p.1,
            Err(e) => r == Err::<u64, Error>(e),
        },
{
    let r = decode_varint_rec(src, 0);
    proof {
        if old(src).exact() {
            match prs_varint_st(src_state(old(src))) {
                Ok(p) => {
                    assert(src_state(final(src)).b =~= p.1.b);
                },
                Err(e) => {},
            }
        }
    }
    r
}

/// Read an integer that must fit in `usize`.
fn decode_usize<S: ByteSource>(src: &mut S) -> (r: Result<usize, Error>)
    requires
        old(src).wf(),
    ensures
        final(src).wf(),
        old(src).exact() ==> final(src).exact(),
        final(src).spec_budget() <= old(src).spec_budget(),
        old(src).exact() ==> match prs_usize(src_state(old(src))) {
            Ok(p) => r == Ok::<usize, Error>(p.0 as usize) && src_state(final(src)) == p.1,
            Err(e) => r == Err::<usize, Error>(e),
        },
{
    let v = match decode_varint(src) {
        Ok(v) => v,
        Err(e) => {
            return Err(e);
        },
    };
    proof {
        if old(src).exact() && prs_varint(old(src).remaining(), 0) is Ok {
            lemma_prs_varint_bound(old(src).remaining(), 0);
            vstd::arithmetic::power2::lemma2_to64_rest();
        }
    }
    if v > usize::MAX as u64 {
        return Err(Error::MalformedValue);
    }
    Ok(v as usize)
}

/// Read an integer that must fit in sixteen bits.
fn decode_u16<S: ByteSource>(src: &mut S) -> (r: Result<u16, Error>)
    requires
        old(src).wf(),
    ensures
        final(src).wf(),
        old(src).exact() ==> final(src).exact(),
        final(src).spec_budget() <= old(src).spec_budget(),
        old(src).exact() ==> match prs_u16(src_state(old(src))) {
            Ok(p) => r == Ok::<u16, Error>(p.0 as u16) && src_state(final(src)) == p.1,
            Err(e) => r == Err::<u16, Error>(e),
        },
{
    let v = match decode_varint(src) {
        Ok(v) => v,
        Err(e) => {
            return Err(e);
        },
    };
    proof {
        if old(src).exact() && prs_varint(old(src).remaining(), 0) is Ok {
            lemma_prs_varint_bound(old(src).remaining(), 0);
            vstd::arithmetic::power2::lemma2_to64_rest();
        }
    }
    if v > 0xffff {
        return Err(Error::MalformedValue);
    }
    Ok(v as u16)
}

/// Read one raw byte.
fn decode_byte<S: ByteSource>(src: &mut S) -> (r: Result<u8, Error>)
    requires
        old(src).wf(),
    ensures
        final(src).wf(),
        old(src).exact() ==> final(src).exact(),
        final(src).spec_budget() <= old(src).spec_budget(),
        old(src).exact() ==> match prs_byte(src_state(old(src))) {
            Ok(p) => r == Ok::<u8, Error>(p.0) && src_state(final(src)) == p.1,
            Err(e) => r == Err::<u8, Error>(e),
        },
{
    src.pop()
}

/// Read a presence flag or boolean: one byte that must be zero or one.
fn decode_flag<S: ByteSource>(src: &mut S) -> (r: Result<bool, Error>)
    requires
        old(src).wf(),
    ensures
        final(src).wf(),
        old(src).exact() ==> final(src).exact(),
        final(src).spec_budget() <= old(src).spec_budget(),
        old(src).exact() ==> match prs_flag(src_state(old(src))) {
            Ok(p) => r == Ok::<bool, Error>(p.0) && src_state(final(src)) == p.1,
            Err(e) => r == Err::<bool, Error>(e),
        },
{
    let b = match src.pop() {
        Ok(b) => b,
        Err(e) => {
            return Err(e);
        },
    };
    if b == 0 {
        Ok(false)
    } else if b == 1 {
        Ok(true)
    } else {
        Err(Error::InvalidDiscriminant)
    }
}

/// Read a string: byte count, span of that many bytes, UTF-8 validation.
fn decode_string<S: ByteSource>(src: &mut S) -> (r: Result<String, Error>)
    requires
        old(src).wf(),
    ensures
        final(src).wf(),
        old(src).exact() ==> final(src).exact(),
        final(src).spec_budget() <= old(src).spec_budget(),
        old(src).exact() ==> match prs_str(src_state(old(src))) {
            Ok(p) => r is Ok && r->Ok_0@ == p.0 && src_state(final(src)) == p.1,
            Err(e) => r == Err::<String, Error>(e),
        },
{
    let n = match decode_usize(src) {
        Ok(n) => n,
        Err(e) => {
            return Err(e);
        },
    };
    let bytes = match src.take_n(n) {
        Ok(v) => v,
        Err(e) => {
            return Err(e);
        },
    };
    match string_from_utf8(bytes) {
        Some(s) => {
            proof {
                vstd::utf8::encode_utf8_decode_utf8(s@);
            }
            Ok(s)
        },
        None => Err(Error::MalformedValue),
    }
}

} // verus!

verus! {

/// Read an optional string: a presence flag, then the string when present.
fn decode_opt_string<S: ByteSource>(src: &mut S) -> (r: Result<Option<InfoStr<'static>>, Error>)
    requires
        old(src).wf(),
    ensures
        final(src).wf(),
        old(src).exact() ==> final(src).exact(),
        final(src).spec_budget() <= old(src).spec_budget(),
        old(src).exact() ==> match crate::wire::prs_opt_str(src_state(old(src))) {
            Ok(p) => r is Ok && crate::shim::opt_str_model(&r->Ok_0) == p.0 && src_state(
                final(src),
            ) == p.1,
            Err(e) => r == Err::<Option<InfoStr<'static>>, Error>(e),
        },
{
    let present = match decode_flag(src) {
        Ok(p) => p,
        Err(e) => {
            return Err(e);
        },
    };
    if !present {
        return Ok(None);
    }
    match decode_string(src) {
        Ok(s) => Ok(Some(InfoStr::Owned(s))),
        Err(e) => Err(e),
    }
}

/// Read a semantic version: three integers, then the two optional tags.
fn decode_semver<S: ByteSource>(src: &mut S) -> (r: Result<Semver<'static>, Error>)
    requires
        old(src).wf(),
    ensures
        final(src).wf(),
        old(src).exact() ==> final(src).exact(),
        final(src).spec_budget() <= old(src).spec_budget(),
        old(src).exact() ==> match crate::wire::prs_semver(src_state(old(src))) {
            Ok(p) => r is Ok && r->Ok_0.model() == p.0 && src_state(final(src)) == p.1,
            Err(e) => r == Err::<Semver<'static>, Error>(e),
        },
{
    let major = match decode_usize(src) {
        Ok(v) => v,
        Err(e) => {
            return Err(e);
        },
    };
    let minor = match decode_usize(src) {
        Ok(v) => v,
        Err(e) => {
            return Err(e);
        },
    };
    let patch = match decode_usize(src) {
        Ok(v) => v,
        Err(e) => {
            return Err(e);
        },
    };
    let pre = match decode_opt_string(src) {
        Ok(v) => v,
        Err(e) => {
            return Err(e);
        },
    };
    let build = match decode_opt_string(src) {
        Ok(v) => v,
        Err(e) => {
            return Err(e);
        },
    };
    Ok(Semver { major, minor, patch, pre, build })
}

/// Read an optional semantic version.
fn decode_opt_semver<S: ByteSource>(src: &mut S) -> (r: Result<Option<Semver<'static>>, Error>)
    requires
        old(src).wf(),
    ensures
        final(src).wf(),
        old(src).exact() ==> final(src).exact(),
        final(src).spec_budget() <= old(src).spec_budget(),
        old(src).exact() ==> match crate::wire::prs_opt_semver(src_state(old(src))) {
            Ok(p) => r is Ok && crate::record::opt_semver_model(&r->Ok_0) == p.0 && src_state(
                final(src),
            ) == p.1,
            Err(e) => r == Err::<Option<Semver<'static>>, Error>(e),
        },
{
    let present = match decode_flag(src) {
        Ok(p) => p,
        Err(e) => {
            return Err(e);
        },
    };
    if !present {
        return Ok(None);
    }
    match decode_semver(src) {
        Ok(v) => Ok(Some(v)),
        Err(e) => Err(e),
    }
}

/// Read a release channel: a small integer tag.
fn decode_channel<S: ByteSource>(src: &mut S) -> (r: Result<Channel, Error>)
    requires
        old(src).wf(),
    ensures
        final(src).wf(),
        old(src).exact() ==> final(src).exact(),
        final(src).spec_budget() <= old(src).spec_budget(),
        old(src).exact() ==> match crate::wire::prs_channel(src_state(old(src))) {
            Ok(p) => r == Ok::<Channel, Error>(p.0) && src_state(final(src)) == p.1,
            Err(e) => r == Err::<Channel, Error>(e),
        },
{
    let v = match decode_varint(src) {
        Ok(v) => v,
        Err(e) => {
            return Err(e);
        },
    };
    proof {
        if old(src).exact() && prs_varint(old(src).remaining(), 0) is Ok {
            lemma_prs_varint_bound(old(src).remaining(), 0);
            vstd::arithmetic::power2::lemma2_to64_rest();
        }
    }
    if v == 0 {
        Ok(Channel::Dev)
    } else if v == 1 {
        Ok(Channel::Nightly)
    } else if v == 2 {
        Ok(Channel::Beta)
    } else if v == 3 {
        Ok(Channel::Stable)
    } else {
        Err(Error::InvalidDiscriminant)
    }
}

/// Read an optional release channel.
fn decode_opt_channel<S: ByteSource>(src: &mut S) -> (r: Result<Option<Channel>, Error>)
    requires
        old(src).wf(),
    ensures
        final(src).wf(),
        old(src).exact() ==> final(src).exact(),
        final(src).spec_budget() <= old(src).spec_budget(),
        old(src).exact() ==> match crate::wire::prs_opt_channel(src_state(old(src))) {
            Ok(p) => r is Ok && r->Ok_0 == p.0 && src_state(final(src)) == p.1,
            Err(e) => r == Err::<Option<Channel>, Error>(e),
        },
{
    let present = match decode_flag(src) {
        Ok(p) => p,
        Err(e) => {
            return Err(e);
        },
    };
    if !present {
        return Ok(None);
    }
    match decode_channel(src) {
        Ok(c) => Ok(Some(c)),
        Err(e) => Err(e),
    }
}

/// Read a build timestamp.
fn decode_date<S: ByteSource>(src: &mut S) -> (r: Result<BuildDate, Error>)
    requires
        old(src).wf(),
    ensures
        final(src).wf(),
        old(src).exact() ==> final(src).exact(),
        final(src).spec_budget() <= old(src).spec_budget(),
        old(src).exact() ==> match crate::wire::prs_date(src_state(old(src))) {
            Ok(p) => r == Ok::<BuildDate, Error>(p.0) && src_state(final(src)) == p.1,
            Err(e) => r == Err::<BuildDate, Error>(e),
        },
{
    let year = match decode_u16(src) {
        Ok(v) => v,
        Err(e) => {
            return Err(e);
        },
    };
    let month = match decode_byte(src) {
        Ok(v) => v,
        Err(e) => {
            return Err(e);
        },
    };
    let day = match decode_byte(src) {
        Ok(v) => v,
        Err(e) => {
            return Err(e);
        },
    };
    let hour = match decode_byte(src) {
        Ok(v) => v,
        Err(e) => {
            return Err(e);
        },
    };
    let minute = match decode_byte(src) {
        Ok(v) => v,
        Err(e) => {
            return Err(e);
        },
    };
    let second = match decode_byte(src) {
        Ok(v) => v,
        Err(e) => {
            return Err(e);
        },
    };
    let offset_west = match decode_flag(src) {
        Ok(v) => v,
        Err(e) => {
            return Err(e);
        },
    };
    let offset_minutes = match decode_u16(src) {
        Ok(v) => v,
        Err(e) => {
            return Err(e);
        },
    };
    Ok(BuildDate { year, month, day, hour, minute, second, offset_west, offset_minutes })
}

/// Read an optional build timestamp.
fn decode_opt_date<S: ByteSource>(src: &mut S) -> (r: Result<Option<BuildDate>, Error>)
    requires
        old(src).wf(),
    ensures
        final(src).wf(),
        old(src).exact() ==> final(src).exact(),
        final(src).spec_budget() <= old(src).spec_budget(),
        old(src).exact() ==> match crate::wire::prs_opt_date(src_state(old(src))) {
            Ok(p) => r is Ok && r->Ok_0 == p.0 && src_state(final(src)) == p.1,
            Err(e) => r == Err::<Option<BuildDate>, Error>(e),
        },
{
    let present = match decode_flag(src) {
        Ok(p) => p,
        Err(e) => {
            return Err(e);
        },
    };
    if !present {
        return Ok(None);
    }
    match decode_date(src) {
        Ok(d) => Ok(Some(d)),
        Err(e) => Err(e),
    }
}

/// Read the application section.
fn decode_app<S: ByteSource>(src: &mut S) -> (r: Result<AppInfo<'static>, Error>)
    requires
        old(src).wf(),
    ensures
        final(src).wf(),
        old(src).exact() ==> final(src).exact(),
        final(src).spec_budget() <= old(src).spec_budget(),
        old(src).exact() ==> match crate::wire::prs_app(src_state(old(src))) {
            Ok(p) => r is Ok && r->Ok_0.model() == p.0 && src_state(final(src)) == p.1,
            Err(e) => r == Err::<AppInfo<'static>, Error>(e),
        },
{
    let name = match decode_opt_string(src) {
        Ok(v) => v,
        Err(e) => {
            return Err(e);
        },
    };
    let version = match decode_opt_semver(src) {
        Ok(v) => v,
        Err(e) => {
            return Err(e);
        },
    };
    let git = match decode_opt_string(src) {
        Ok(v) => v,
        Err(e) => {
            return Err(e);
        },
    };
    let build_date = match decode_opt_date(src) {
        Ok(v) => v,
        Err(e) => {
            return Err(e);
        },
    };
    Ok(AppInfo { name, version, git, build_date })
}

/// Read the toolchain section.
fn decode_rustc<S: ByteSource>(src: &mut S) -> (r: Result<RustcInfo<'static>, Error>)
    requires
        old(src).wf(),
    ensures
        final(src).wf(),
        old(src).exact() ==> final(src).exact(),
        final(src).spec_budget() <= old(src).spec_budget(),
        old(src).exact() ==> match crate::wire::prs_rustc(src_state(old(src))) {
            Ok(p) => r is Ok && r->Ok_0.model() == p.0 && src_state(final(src)) == p.1,
            Err(e) => r == Err::<RustcInfo<'static>, Error>(e),
        },
{
    let version = match decode_opt_semver(src) {
        Ok(v) => v,
        Err(e) => {
            return Err(e);
        },
    };
    let llvm_version = match decode_opt_semver(src) {
        Ok(v) => v,
        Err(e) => {
            return Err(e);
        },
    };
    let channel = match decode_opt_channel(src) {
        Ok(v) => v,
        Err(e) => {
            return Err(e);
        },
    };
    let git = match decode_opt_string(src) {
        Ok(v) => v,
        Err(e) => {
            return Err(e);
        },
    };
    let host = match decode_opt_string(src) {
        Ok(v) => v,
        Err(e) => {
            return Err(e);
        },
    };
    Ok(RustcInfo { version, llvm_version, channel, git, host })
}

/// Read the fixed part of a record: schema version, both sections, and the
/// payload presence flag.
fn decode_fixed<S: ByteSource>(src: &mut S) -> (r: Result<
    (Semver<'static>, AppInfo<'static>, RustcInfo<'static>, bool),
    Error,
>)
    requires
        old(src).wf(),
    ensures
        final(src).wf(),
        old(src).exact() ==> final(src).exact(),
        final(src).spec_budget() <= old(src).spec_budget(),
        old(src).exact() ==> match crate::wire::prs_fixed(src_state(old(src))) {
            Ok(p) => r is Ok && (FixedModel {
                version: r->Ok_0.0.model(),
                app: r->Ok_0.1.model(),
                rustc: r->Ok_0.2.model(),
                has_user: r->Ok_0.3,
            }) == p.0 && src_state(final(src)) == p.1,
            Err(e) => r == Err::<
                (Semver<'static>, AppInfo<'static>, RustcInfo<'static>, bool),
                Error,
            >(e),
        },
{
    let version = match decode_semver(src) {
        Ok(v) => v,
        Err(e) => {
            return Err(e);
        },
    };
    let app = match decode_app(src) {
        Ok(v) => v,
        Err(e) => {
            return Err(e);
        },
    };
    let rustc = match decode_rustc(src) {
        Ok(v) => v,
        Err(e) => {
            return Err(e);
        },
    };
    let has_user = match decode_flag(src) {
        Ok(v) => v,
        Err(e) => {
            return Err(e);
        },
    };
    Ok((version, app, rustc, has_user))
}

} // verus!

verus! {

/// Marker left in a record whose user payload was deliberately not decoded:
/// it records the absolute position, in the underlying stream, at which the
/// payload begins. The continuation handed back alongside the record stands
/// at that very position.
#[derive(Debug, Clone, Copy, PartialEq, Eq, Structural)]
pub struct Deferred(usize);

impl Deferred {
    /// The position at which the payload begins.
    pub closed spec fn spec_position(&self) -> nat {
        self.0 as nat
    }

    /// The position at which the payload begins.
    pub fn position(&self) -> (r: usize)
        ensures
            r == self.spec_position(),
    {
        self.0
    }
}

impl Sealed for Deferred {

}

impl Sealed for Vec<u8> {

}

/// A payload type whose bytes travel on the wire as they are.
pub trait PayloadCodec: Sealed + Sized {
    /// The payload's bytes.
    spec fn data(&self) -> Seq<u8>;

    /// Wrap decoded payload bytes.
    fn from_vec(v: Vec<u8>) -> (r: Self)
        ensures
            r.data() == v@,
    ;

    /// Copy the payload's bytes out.
    fn to_vec(&self) -> (r: Vec<u8>)
        ensures
            r@ == self.data(),
    ;
}

impl PayloadCodec for Vec<u8> {
    open spec fn data(&self) -> Seq<u8> {
        self@
    }

    fn from_vec(v: Vec<u8>) -> (r: Self) {
        v
    }

    fn to_vec(&self) -> (r: Vec<u8>) {
        slice_to_vec(self.as_slice())
    }
}

/// The payload bytes a record carries, when it carries any.
pub open spec fn user_data<T: PayloadCodec>(im: &InfoMem<'_, T>) -> Option<Seq<u8>> {
    match im.user {
        Option::None => Option::None,
        Option::Some(t) => Option::Some(t.data()),
    }
}

/// Read a whole record: the fixed part, then — when the flag says so — the
/// rest of the source as the payload.
fn decode_record<S: ByteSource, T: PayloadCodec>(src: &mut S) -> (r: Result<
    InfoMem<'static, T>,
    Error,
>)
    requires
        old(src).wf(),
    ensures
        final(src).wf(),
        old(src).exact() ==> final(src).exact(),
        old(src).exact() ==> match crate::wire::prs_record(src_state(old(src))) {
            Ok(p) => r is Ok && r->Ok_0.fixed_model() == p.0.0 && user_data(&r->Ok_0) == p.0.1
                && src_state(final(src)) == p.1,
            Err(e) => r == Err::<InfoMem<'static, T>, Error>(e),
        },
{
    let (version, app, rustc, has_user) = match decode_fixed(src) {
        Ok(v) => v,
        Err(e) => {
            return Err(e);
        },
    };
    if !has_user {
        return Ok(InfoMem { version, app, rustc, user: None });
    }
    let payload = match src.take_rest() {
        Ok(v) => v,
        Err(e) => {
            return Err(e);
        },
    };
    proof {
        if old(src).exact() {
            assert(src.remaining() =~= Seq::<u8>::empty());
        }
    }
    Ok(InfoMem { version, app, rustc, user: Some(T::from_vec(payload)) })
}

} // verus!

verus! {

/// Append the variable-length encoding of `v`.
fn encode_varint(out: &mut Vec<u8>, v: u64)
    ensures
        final(out)@ == old(out)@ + enc_varint(v as nat),
    decreases v,
{
    if v < 0x80 {
        out.push(v as u8);
        proof {
            assert(out@ =~= old(out)@ + enc_varint(v as nat));
        }
    } else {
        let b = (v % 0x80 + 0x80) as u8;
        out.push(b);
        proof {
            assert(v / 0x80 < v) by (nonlinear_arith)
                requires
                    v >= 0x80,
            ;
        }
        encode_varint(out, v / 0x80);
        proof {
            assert(out@ =~= old(out)@ + enc_varint(v as nat));
        }
    }
}

/// Append a byte count and the bytes themselves.
fn encode_bytes(out: &mut Vec<u8>, b: &[u8])
    ensures
        final(out)@ == old(out)@ + enc_varint(b@.len()) + b@,
{
    encode_varint(out, b.len() as u64);
    let mut tmp = slice_to_vec(b);
    out.append(&mut tmp);
}

/// Append a string: byte count, then UTF-8 bytes.
fn encode_str(out: &mut Vec<u8>, s: &str)
    ensures
        final(out)@ == old(out)@ + crate::wire::enc_str(s@),
{
    encode_bytes(out, s.as_bytes());
}

/// Append a presence flag or boolean.
fn encode_flag(out: &mut Vec<u8>, p: bool)
    ensures
        final(out)@ == old(out)@ + crate::wire::enc_flag(p),
{
    if p {
        out.push(1);
    } else {
        out.push(0);
    }
    proof {
        assert(out@ =~= old(out)@ + crate::wire::enc_flag(p));
    }
}

/// Append an optional string.
fn encode_opt_str(out: &mut Vec<u8>, o: &Option<InfoStr<'_>>)
    ensures
        final(out)@ == old(out)@ + crate::wire::enc_opt_str(crate::shim::opt_str_model(o)),
{
    match o {
        None => {
            encode_flag(out, false);
        },
        Some(s) => {
            encode_flag(out, true);
            encode_str(out, s.as_str());
        },
    }
}

/// Append a semantic version.
fn encode_semver(out: &mut Vec<u8>, v: &Semver<'_>)
    ensures
        final(out)@ == old(out)@ + crate::wire::enc_semver(v.model()),
{
    encode_varint(out, v.major as u64);
    encode_varint(out, v.minor as u64);
    encode_varint(out, v.patch as u64);
    encode_opt_str(out, &v.pre);
    encode_opt_str(out, &v.build);
    proof {
        assert(out@ =~= old(out)@ + crate::wire::enc_semver(v.model()));
    }
}

/// Append an optional semantic version.
fn encode_opt_semver(out: &mut Vec<u8>, o: &Option<Semver<'_>>)
    ensures
        final(out)@ == old(out)@ + crate::wire::enc_opt_semver(crate::record::opt_semver_model(o)),
{
    match o {
        None => {
            encode_flag(out, false);
        },
        Some(v) => {
            encode_flag(out, true);
            encode_semver(out, v);
        },
    }
}

/// Append a release channel tag.
fn encode_channel(out: &mut Vec<u8>, c: Channel)
    ensures
        final(out)@ == old(out)@ + crate::wire::enc_channel(c),
{
    let tag: u64 = match c {
        Channel::Dev => 0,
        Channel::Nightly => 1,
        Channel::Beta => 2,
        Channel::Stable => 3,
    };
    encode_varint(out, tag);
}

/// Append an optional release channel.
fn encode_opt_channel(out: &mut Vec<u8>, o: &Option<Channel>)
    ensures
        final(out)@ == old(out)@ + crate::wire::enc_opt_channel(*o),
{
    match o {
        None => {
            encode_flag(out, false);
        },
        Some(c) => {
            encode_flag(out, true);
            encode_channel(out, *c);
        },
    }
}

/// Append a build timestamp.
fn encode_date(out: &mut Vec<u8>, d: &BuildDate)
    ensures
        final(out)@ == old(out)@ + crate::wire::enc_date(*d),
{
    encode_varint(out, d.year as u64);
    out.push(d.month);
    out.push(d.day);
    out.push(d.hour);
    out.push(d.minute);
    out.push(d.second);
    encode_flag(out, d.offset_west);
    encode_varint(out, d.offset_minutes as u64);
    proof {
        assert(out@ =~= old(out)@ + crate::wire::enc_date(*d));
    }
}

/// Append an optional build timestamp.
fn encode_opt_date(out: &mut Vec<u8>, o: &Option<BuildDate>)
    ensures
        final(out)@ == old(out)@ + crate::wire::enc_opt_date(*o),
{
    match o {
        None => {
            encode_flag(out, false);
        },
        Some(d) => {
            encode_flag(out, true);
            encode_date(out, d);
        },
    }
}

/// Append the application section.
fn encode_app(out: &mut Vec<u8>, a: &AppInfo<'_>)
    ensures
        final(out)@ == old(out)@ + crate::wire::enc_app(a.model()),
{
    encode_opt_str(out, &a.name);
    encode_opt_semver(out, &a.version);
    encode_opt_str(out, &a.git);
    encode_opt_date(out, &a.build_date);
    proof {
        assert(out@ =~= old(out)@ + crate::wire::enc_app(a.model()));
    }
}

/// Append the toolchain section.
fn encode_rustc(out: &mut Vec<u8>, t: &RustcInfo<'_>)
    ensures
        final(out)@ == old(out)@ + crate::wire::enc_rustc(t.model()),
{
    let ghost o0 = out@;
    encode_opt_semver(out, &t.version);
    encode_opt_semver(out, &t.llvm_version);
    encode_opt_channel(out, &t.channel);
    encode_opt_str(out, &t.git);
    encode_opt_str(out, &t.host);
    proof {
        let e1 = crate::wire::enc_opt_semver(crate::record::opt_semver_model(&t.version));
        let e2 = crate::wire::enc_opt_semver(crate::record::opt_semver_model(&t.llvm_version));
        let e3 = crate::wire::enc_opt_channel(t.channel);
        let e4 = crate::wire::enc_opt_str(crate::shim::opt_str_model(&t.git));
        let e5 = crate::wire::enc_opt_str(crate::shim::opt_str_model(&t.host));
        crate::wire::lemma_seq_assoc(o0 + e1 + e2 + e3, e4, e5);
        crate::wire::lemma_seq_assoc(o0 + e1 + e2, e3, e4 + e5);
        crate::wire::lemma_seq_assoc(o0 + e1, e2, e3 + (e4 + e5));
        crate::wire::lemma_seq_assoc(o0, e1, e2 + (e3 + (e4 + e5)));
        assert(out@ == o0 + crate::wire::enc_rustc(t.model()));
    }
}

/// Serialize a record, without the magic header.
pub fn to_allocvec<T: PayloadCodec>(im: &InfoMem<'_, T>) -> (r: Vec<u8>)
    ensures
        r@ == crate::wire::enc_record(im.fixed_model(), user_data(im)),
{
    let mut out: Vec<u8> = Vec::new();
    encode_semver(&mut out, &im.version);
    encode_app(&mut out, &im.app);
    encode_rustc(&mut out, &im.rustc);
    match &im.user {
        None => {
            encode_flag(&mut out, false);
        },
        Some(t) => {
            encode_flag(&mut out, true);
            let mut payload = t.to_vec();
            out.append(&mut payload);
        },
    }
    proof {
        assert(out@ =~= crate::wire::enc_record(im.fixed_model(), user_data(im)));
    }
    out
}

/// Serialize a record with the magic header in front.
pub fn to_allocvec_magic<T: PayloadCodec>(im: &InfoMem<'_, T>) -> (r: Vec<u8>)
    ensures
        r@ == crate::wire::magic_bytes() + crate::wire::enc_record(im.fixed_model(), user_data(im)),
{
    let mut out: Vec<u8> = Vec::new();
    out.push(0x50);
    out.push(0x49);
    out.push(0x4d);
    out.push(0x80);
    let mut body = to_allocvec(im);
    out.append(&mut body);
    proof {
        assert(out@ =~= crate::wire::magic_bytes() + crate::wire::enc_record(
            im.fixed_model(),
            user_data(im),
        ));
    }
    out
}

/// Serialize a record with the magic header into a fixed-size buffer,
/// overwriting its front; fails, changing nothing, when the buffer is too
/// small. Returns how many bytes were written.
#[verifier::loop_isolation(false)]
pub fn to_slice_magic<T: PayloadCodec>(im: &InfoMem<'_, T>, buf: &mut Vec<u8>) -> (r: Result<
    usize,
    Error,
>)
    ensures
        ({
            let enc = crate::wire::magic_bytes() + crate::wire::enc_record(
                im.fixed_model(),
                user_data(im),
            );
            &&& (r is Ok <==> enc.len() <= old(buf)@.len())
            &&& final(buf)@.len() == old(buf)@.len()
            &&& r is Ok ==> r->Ok_0 == enc.len() && final(buf)@ == enc + old(buf)@.skip(
                enc.len() as int,
            )
            &&& r is Err ==> r->Err_0 == Error::BufferTooSmall && final(buf)@ == old(buf)@
        }),
{
    let encoded = to_allocvec_magic(im);
    let n = encoded.len();
    if n > buf.len() {
        return Err(Error::BufferTooSmall);
    }
    let ghost buf0 = buf@;
    let mut i: usize = 0;
    while i < n
        invariant
            i <= n,
            n == encoded@.len(),
            buf@.len() == buf0.len() >= n,
            forall|j: int| 0 <= j < i ==> buf@[j] == encoded@[j],
            forall|j: int| i <= j < buf0.len() ==> buf@[j] == buf0[j],
        decreases n - i,
    {
        buf[i] = encoded[i];
        i = i + 1;
    }
    proof {
        assert(buf@ =~= encoded@ + buf0.skip(n as int));
        assert(buf0 == old(buf)@);
    }
    Ok(n)
}

} // verus!

verus! {

/// Deserialize a record from a slice whose bytes may begin with anything,
/// as long as the magic header appears before the record.
pub fn from_bytes_magic<T: PayloadCodec>(s: &[u8]) -> (r: Result<InfoMem<'static, T>, Error>)
    ensures
        match crate::wire::prs_record(
            PState { b: crate::magic::after_scan(s@), sc: Option::None },
        ) {
            Ok(p) => r is Ok && r->Ok_0.fixed_model() == p.0.0 && user_data(&r->Ok_0) == p.0.1,
            Err(e) => r == Err::<InfoMem<'static, T>, Error>(e),
        },
{
    let mut m = crate::magic::Magic::new(crate::source::SliceSource::new(s));
    decode_record(&mut m)
}

/// Deserialize a record from a slice that starts directly with the record,
/// no magic header in front.
pub fn from_bytes<T: PayloadCodec>(s: &[u8]) -> (r: Result<InfoMem<'static, T>, Error>)
    ensures
        match crate::wire::prs_record(PState { b: s@, sc: Option::None }) {
            Ok(p) => r is Ok && r->Ok_0.fixed_model() == p.0.0 && user_data(&r->Ok_0) == p.0.1,
            Err(e) => r == Err::<InfoMem<'static, T>, Error>(e),
        },
{
    let mut src = crate::source::SliceSource::new(s);
    decode_record(&mut src)
}

/// Deserialize a record, magic header included, from a one-byte-at-a-time
/// reader, using `scratch` for every span that must become contiguous.
/// Returns the record and the scratch buffer.
pub fn from_seq_magic<F, T: PayloadCodec>(src: FetchSource<F>, scratch: Vec<u8>) -> (r: Result<
    (InfoMem<'static, T>, Vec<u8>),
    Error,
>) where F: Fn(usize) -> Result<u8, SequentialReadError>
    requires
        src.wf(),
    ensures
        src.exact() ==> match crate::wire::prs_record(
            PState { b: crate::magic::after_scan(src.remaining()), sc: Option::Some(scratch@.len()) },
        ) {
            Ok(p) => r is Ok && r->Ok_0.0.fixed_model() == p.0.0 && user_data(&r->Ok_0.0) == p.0.1,
            Err(e) => r is Err && r->Err_0 == e,
        },
{
    let s = SeqSource::new(src, scratch);
    let mut m = crate::magic::Magic::new(s);
    match decode_record(&mut m) {
        Ok(im) => {
            let (_inner, scratch_back) = m.into_inner().into_parts();
            Ok((im, scratch_back))
        },
        Err(e) => Err(e),
    }
}

/// Deserialize only the fixed part of a record, magic header included, from
/// a one-byte-at-a-time reader. The user payload is left undecoded: the
/// record carries a [`Deferred`] marker for it, and the reader comes back
/// positioned exactly at the payload's first byte, ready for a second,
/// caller-chosen decode. The scratch buffer comes back as well.
pub fn from_seq_magic_deferred<F>(src: FetchSource<F>, scratch: Vec<u8>) -> (r: Result<
    (InfoMem<'static, Deferred>, FetchSource<F>, Vec<u8>),
    Error,
>) where F: Fn(usize) -> Result<u8, SequentialReadError>
    requires
        src.wf(),
    ensures
        src.exact() ==> match crate::wire::prs_fixed(
            PState { b: crate::magic::after_scan(src.remaining()), sc: Option::Some(scratch@.len()) },
        ) {
            Ok(p) => r is Ok && {
                &&& r->Ok_0.0.fixed_model() == p.0
                &&& (r->Ok_0.0.user is Some <==> p.0.has_user)
                &&& r->Ok_0.1.wf()
                &&& r->Ok_0.1.exact()
                &&& r->Ok_0.1.remaining() == p.1.b
                &&& (r->Ok_0.0.user matches Some(d) ==> d.spec_position()
                    == r->Ok_0.1.spec_position())
            },
            Err(e) => r is Err && r->Err_0 == e,
        },
{
    let mut s = SeqSource::new(src, scratch);
    match crate::magic::scan_magic(&mut s) {
        Ok(()) => {},
        Err(e) => {
            return Err(e);
        },
    }
    let (version, app, rustc, has_user) = match decode_fixed(&mut s) {
        Ok(v) => v,
        Err(e) => {
            return Err(e);
        },
    };
    let (inner, scratch_back) = s.into_parts();
    let pos = inner.position();
    let user = if has_user {
        Some(Deferred(pos))
    } else {
        None
    };
    Ok((InfoMem { version, app, rustc, user }, inner, scratch_back))
}

/// What reading a tagged byte payload yields: an integer tag, then a byte
/// count, then that many bytes.
pub open spec fn prs_tagged(st: PState) -> Result<((nat, Seq<u8>), PState), Error> {
    match prs_usize(st) {
        Ok((tag, st1)) => match prs_usize(st1) {
            Ok((len, st2)) => match prs_take(st2, len) {
                Ok((bytes, st3)) => Ok(((tag, bytes), st3)),
                Err(e) => Err(e),
            },
            Err(e) => Err(e),
        },
        Err(e) => Err(e),
    }
}

/// Decode a tagged byte payload — an integer tag followed by a
/// length-prefixed byte string — from a one-byte-at-a-time reader, as a
/// second decode over a deferred payload. Returns the tag, the bytes, and
/// the scratch buffer.
pub fn from_seq<F>(src: FetchSource<F>, scratch: Vec<u8>) -> (r: Result<
    (u64, Vec<u8>, Vec<u8>),
    Error,
>) where F: Fn(usize) -> Result<u8, SequentialReadError>
    requires
        src.wf(),
    ensures
        src.exact() ==> match prs_tagged(
            PState { b: src.remaining(), sc: Option::Some(scratch@.len()) },
        ) {
            Ok(p) => r is Ok && r->Ok_0.0 == p.0.0 && r->Ok_0.1@ == p.0.1,
            Err(e) => r is Err && r->Err_0 == e,
        },
{
    let mut s = SeqSource::new(src, scratch);
    let tag = match decode_usize(&mut s) {
        Ok(v) => v,
        Err(e) => {
            return Err(e);
        },
    };
    let len = match decode_usize(&mut s) {
        Ok(v) => v,
        Err(e) => {
            return Err(e);
        },
    };
    let bytes = match s.take_n(len) {
        Ok(v) => v,
        Err(e) => {
            return Err(e);
        },
    };
    let (_inner, scratch_back) = s.into_parts();
    Ok((tag as u64, bytes, scratch_back))
}

/// Serialize a tagged byte payload, the shape [`from_seq`] reads back.
pub fn to_allocvec_tagged(tag: u64, data: &[u8]) -> (r: Vec<u8>)
    ensures
        r@ == enc_varint(tag as nat) + enc_varint(data@.len()) + data@,
{
    let mut out: Vec<u8> = Vec::new();
    encode_varint(&mut out, tag);
    encode_bytes(&mut out, data);
    proof {
        assert(out@ =~= enc_varint(tag as nat) + enc_varint(data@.len()) + data@);
    }
    out
}

} // verus!
