//! The wire format, as mathematics.
//!
//! Every encoder and decoder of this library is specified against the
//! functions in this module: `enc_*` give the exact byte sequence a value
//! encodes to, and `prs_*` give the exact outcome of reading a value back,
//! including which error a malformed input produces.
//!
//! Integers use a variable-length encoding, seven bits to the byte, least
//! significant group first, with the high bit of a byte flagging a
//! continuation. Optional fields are a one-byte presence flag followed by the
//! value when present. Strings are UTF-8 bytes preceded by a byte count. The
//! user payload is raw bytes with no length prefix: it is always last and
//! consumes the rest of the source.
//!
//! Parsing threads a `PState`: the bytes not yet consumed, plus how much of
//! the caller's scratch buffer is still free, `None` standing for a source
//! that needs no scratch. A span request larger than the free scratch fails
//! with [`Error::BufferTooSmall`] before anything is read.

use vstd::prelude::*;
use vstd::arithmetic::power2::pow2;
use vstd::arithmetic::div_mod::lemma_fundamental_div_mod;
use vstd::utf8::decode_utf8;
use vstd::utf8::encode_utf8;
use vstd::utf8::valid_utf8;
use crate::error::Error;
use crate::record::AppInfoModel;
use crate::record::FixedModel;
use crate::record::RustcInfoModel;
use crate::shim::BuildDate;
use crate::shim::Channel;
use crate::shim::SemverModel;

verus! {

/// The four magic bytes that precede a framed record.
pub open spec fn magic_bytes() -> Seq<u8> {
    seq![0x50u8, 0x49u8, 0x4du8, 0x80u8]
}

/// Parser state: the bytes still unread, and the scratch space still free
/// (`None` when the source needs no scratch buffer).
pub ghost struct PState {
    pub b: Seq<u8>,
    pub sc: Option<nat>,
}

/// True when a span of `n` bytes fits into the free scratch space.
pub open spec fn scratch_ok(sc: Option<nat>, n: nat) -> bool {
    match sc {
        Option::None => true,
        Option::Some(c) => n <= c,
    }
}

/// The free scratch space left after a span of `n` bytes was taken.
pub open spec fn scratch_sub(sc: Option<nat>, n: nat) -> Option<nat> {
    match sc {
        Option::None => Option::None,
        Option::Some(c) => Option::Some((c - n) as nat),
    }
}

// ---------------------------------------------------------------------------
// Encoding
// ---------------------------------------------------------------------------

/// Variable-length encoding of an unsigned integer.
pub open spec fn enc_varint(v: nat) -> Seq<u8>
    decreases v,
{
    if v < 0x80 {
        seq![v as u8]
    } else {
        seq![(v % 0x80 + 0x80) as u8] + enc_varint(v / 0x80)
    }
}

/// A presence flag or boolean: one byte, zero or one.
pub open spec fn enc_flag(p: bool) -> Seq<u8> {
    if p {
        seq![1u8]
    } else {
        seq![0u8]
    }
}

/// A string: byte count, then UTF-8 bytes.
pub open spec fn enc_str(s: Seq<char>) -> Seq<u8> {
    enc_varint(encode_utf8(s).len()) + encode_utf8(s)
}

/// An optional string: presence flag, then the string when present.
pub open spec fn enc_opt_str(o: Option<Seq<char>>) -> Seq<u8> {
    match o {
        Option::None => enc_flag(false),
        Option::Some(s) => enc_flag(true) + enc_str(s),
    }
}

/// A semantic version: three integers, then the two optional tags.
pub open spec fn enc_semver(m: SemverModel) -> Seq<u8> {
    enc_varint(m.major as nat) + (enc_varint(m.minor as nat) + (enc_varint(m.patch as nat)
        + (enc_opt_str(m.pre) + enc_opt_str(m.build))))
}

pub open spec fn enc_opt_semver(o: Option<SemverModel>) -> Seq<u8> {
    match o {
        Option::None => enc_flag(false),
        Option::Some(m) => enc_flag(true) + enc_semver(m),
    }
}

/// A release channel: its tag as a variable-length integer.
pub open spec fn channel_tag(c: Channel) -> nat {
    match c {
        Channel::Dev => 0,
        Channel::Nightly => 1,
        Channel::Beta => 2,
        Channel::Stable => 3,
    }
}

pub open spec fn enc_channel(c: Channel) -> Seq<u8> {
    enc_varint(channel_tag(c))
}

pub open spec fn enc_opt_channel(o: Option<Channel>) -> Seq<u8> {
    match o {
        Option::None => enc_flag(false),
        Option::Some(c) => enc_flag(true) + enc_channel(c),
    }
}

/// A build timestamp: the year and the offset magnitude as variable-length
/// integers, the other components as single raw bytes, the offset direction
/// as a flag.
pub open spec fn enc_date(d: BuildDate) -> Seq<u8> {
    enc_varint(d.year as nat) + (seq![d.month] + (seq![d.day] + (seq![d.hour] + (seq![d.minute]
        + (seq![d.second] + (enc_flag(d.offset_west) + enc_varint(d.offset_minutes as nat)))))))
}

pub open spec fn enc_opt_date(o: Option<BuildDate>) -> Seq<u8> {
    match o {
        Option::None => enc_flag(false),
        Option::Some(d) => enc_flag(true) + enc_date(d),
    }
}

pub open spec fn enc_app(m: AppInfoModel) -> Seq<u8> {
    enc_opt_str(m.name) + (enc_opt_semver(m.version) + (enc_opt_str(m.git) + enc_opt_date(
        m.build_date,
    )))
}

pub open spec fn enc_rustc(m: RustcInfoModel) -> Seq<u8> {
    enc_opt_semver(m.version) + (enc_opt_semver(m.llvm_version) + (enc_opt_channel(m.channel)
        + (enc_opt_str(m.git) + enc_opt_str(m.host))))
}

/// The fixed part of a record: schema version, application and toolchain
/// sections, and the payload presence flag.
pub open spec fn enc_fixed(f: FixedModel) -> Seq<u8> {
    enc_semver(f.version) + (enc_app(f.app) + (enc_rustc(f.rustc) + enc_flag(f.has_user)))
}

/// A whole record: the fixed part, then the payload bytes raw — no length
/// prefix, since the payload is always last.
pub open spec fn enc_record(f: FixedModel, user: Option<Seq<u8>>) -> Seq<u8> {
    enc_semver(f.version) + (enc_app(f.app) + (enc_rustc(f.rustc) + match user {
        Option::None => enc_flag(false),
        Option::Some(p) => enc_flag(true) + p,
    }))
}

// ---------------------------------------------------------------------------
// Well-formedness: what must hold of a value for its encoding to decode on
// the machine at hand.
// ---------------------------------------------------------------------------

/// A string whose byte count fits the machine's span requests.
pub open spec fn str_wf(s: Seq<char>) -> bool {
    encode_utf8(s).len() <= usize::MAX
}

pub open spec fn opt_str_wf(o: Option<Seq<char>>) -> bool {
    match o {
        Option::None => true,
        Option::Some(s) => str_wf(s),
    }
}

pub open spec fn semver_wf(m: SemverModel) -> bool {
    m.major <= usize::MAX && m.minor <= usize::MAX && m.patch <= usize::MAX && opt_str_wf(m.pre)
        && opt_str_wf(m.build)
}

pub open spec fn opt_semver_wf(o: Option<SemverModel>) -> bool {
    match o {
        Option::None => true,
        Option::Some(m) => semver_wf(m),
    }
}

pub open spec fn app_wf(m: AppInfoModel) -> bool {
    opt_str_wf(m.name) && opt_semver_wf(m.version) && opt_str_wf(m.git)
}

pub open spec fn rustc_wf(m: RustcInfoModel) -> bool {
    opt_semver_wf(m.version) && opt_semver_wf(m.llvm_version) && opt_str_wf(m.git) && opt_str_wf(
        m.host,
    )
}

pub open spec fn fixed_wf(f: FixedModel) -> bool {
    semver_wf(f.version) && app_wf(f.app) && rustc_wf(f.rustc)
}

// ---------------------------------------------------------------------------
// Scratch demand: how many bytes of scratch a value's decoding takes.
// ---------------------------------------------------------------------------

pub open spec fn str_need(s: Seq<char>) -> nat {
    encode_utf8(s).len()
}

pub open spec fn opt_str_need(o: Option<Seq<char>>) -> nat {
    match o {
        Option::None => 0,
        Option::Some(s) => str_need(s),
    }
}

pub open spec fn semver_need(m: SemverModel) -> nat {
    opt_str_need(m.pre) + opt_str_need(m.build)
}

pub open spec fn opt_semver_need(o: Option<SemverModel>) -> nat {
    match o {
        Option::None => 0,
        Option::Some(m) => semver_need(m),
    }
}

pub open spec fn app_need(m: AppInfoModel) -> nat {
    opt_str_need(m.name) + opt_semver_need(m.version) + opt_str_need(m.git)
}

pub open spec fn rustc_need(m: RustcInfoModel) -> nat {
    opt_semver_need(m.version) + opt_semver_need(m.llvm_version) + opt_str_need(m.git)
        + opt_str_need(m.host)
}

pub open spec fn fixed_need(f: FixedModel) -> nat {
    semver_need(f.version) + app_need(f.app) + rustc_need(f.rustc)
}

pub open spec fn record_need(f: FixedModel, user: Option<Seq<u8>>) -> nat {
    fixed_need(f) + match user {
        Option::None => 0,
        Option::Some(p) => p.len(),
    }
}

// ---------------------------------------------------------------------------
// Parsing
// ---------------------------------------------------------------------------

/// Read one variable-length integer from the front of `b`; `depth` counts the
/// groups already read. Yields the value and the number of bytes consumed.
pub open spec fn prs_varint(b: Seq<u8>, depth: nat) -> Result<(nat, nat), Error>
    decreases 10 - depth,
{
    if depth >= 10 {
        Err(Error::MalformedValue)
    } else if b.len() == 0 {
        Err(Error::SourceExhausted)
    } else {
        let byte = b[0];
        if depth == 9 {
            if byte <= 1 {
                Ok((byte as nat, 1))
            } else {
                Err(Error::MalformedValue)
            }
        } else if byte < 0x80 {
            Ok((byte as nat, 1))
        } else {
            match prs_varint(b.skip(1), depth + 1) {
                Ok(r) => Ok(((byte - 0x80) as nat + r.0 * 0x80, r.1 + 1)),
                Err(e) => Err(e),
            }
        }
    }
}

/// Read one raw byte.
pub open spec fn prs_byte(st: PState) -> Result<(u8, PState), Error> {
    if st.b.len() == 0 {
        Err(Error::SourceExhausted)
    } else {
        Ok((st.b[0], PState { b: st.b.skip(1), sc: st.sc }))
    }
}

/// Read one variable-length integer, stepping the state.
pub open spec fn prs_varint_st(st: PState) -> Result<(nat, PState), Error> {
    match prs_varint(st.b, 0) {
        Ok(r) => Ok((r.0, PState { b: st.b.skip(r.1 as int), sc: st.sc })),
        Err(e) => Err(e),
    }
}

/// Read an integer that must fit in `usize`.
pub open spec fn prs_usize(st: PState) -> Result<(nat, PState), Error> {
    match prs_varint_st(st) {
        Ok((v, st1)) => if v <= usize::MAX {
            Ok((v, st1))
        } else {
            Err(Error::MalformedValue)
        },
        Err(e) => Err(e),
    }
}

/// Read an integer that must fit in sixteen bits.
pub open spec fn prs_u16(st: PState) -> Result<(nat, PState), Error> {
    match prs_varint_st(st) {
        Ok((v, st1)) => if v <= 0xffff {
            Ok((v, st1))
        } else {
            Err(Error::MalformedValue)
        },
        Err(e) => Err(e),
    }
}

/// Read a presence flag or boolean.
pub open spec fn prs_flag(st: PState) -> Result<(bool, PState), Error> {
    match prs_byte(st) {
        Ok((0u8, st1)) => Ok((false, st1)),
        Ok((1u8, st1)) => Ok((true, st1)),
        Ok(_) => Err(Error::InvalidDiscriminant),
        Err(e) => Err(e),
    }
}

/// Take a span of exactly `n` bytes: the scratch must hold it, and the
/// source must still have it.
pub open spec fn prs_take(st: PState, n: nat) -> Result<(Seq<u8>, PState), Error> {
    if !scratch_ok(st.sc, n) {
        Err(Error::BufferTooSmall)
    } else if st.b.len() < n {
        Err(Error::SourceExhausted)
    } else {
        Ok((st.b.take(n as int), PState { b: st.b.skip(n as int), sc: scratch_sub(st.sc, n) }))
    }
}

/// Read a string: byte count, span of that many bytes, UTF-8 decoding.
pub open spec fn prs_str(st: PState) -> Result<(Seq<char>, PState), Error> {
    match prs_usize(st) {
        Ok((n, st1)) => match prs_take(st1, n) {
            Ok((bytes, st2)) => if valid_utf8(bytes) {
                Ok((decode_utf8(bytes), st2))
            } else {
                Err(Error::MalformedValue)
            },
            Err(e) => Err(e),
        },
        Err(e) => Err(e),
    }
}

pub open spec fn prs_opt_str(st: PState) -> Result<(Option<Seq<char>>, PState), Error> {
    match prs_flag(st) {
        Ok((false, st1)) => Ok((Option::None, st1)),
        Ok((true, st1)) => match prs_str(st1) {
            Ok((s, st2)) => Ok((Option::Some(s), st2)),
            Err(e) => Err(e),
        },
        Err(e) => Err(e),
    }
}

pub open spec fn prs_semver(st: PState) -> Result<(SemverModel, PState), Error> {
    match prs_usize(st) {
        Ok((major, st1)) => match prs_usize(st1) {
            Ok((minor, st2)) => match prs_usize(st2) {
                Ok((patch, st3)) => match prs_opt_str(st3) {
                    Ok((pre, st4)) => match prs_opt_str(st4) {
                        Ok((build, st5)) => Ok(
                            (
                                SemverModel {
                                    major: major as u64,
                                    minor: minor as u64,
                                    patch: patch as u64,
                                    pre,
                                    build,
                                },
                                st5,
                            ),
                        ),
                        Err(e) => Err(e),
                    },
                    Err(e) => Err(e),
                },
                Err(e) => Err(e),
            },
            Err(e) => Err(e),
        },
        Err(e) => Err(e),
    }
}

pub open spec fn prs_opt_semver(st: PState) -> Result<(Option<SemverModel>, PState), Error> {
    match prs_flag(st) {
        Ok((false, st1)) => Ok((Option::None, st1)),
        Ok((true, st1)) => match prs_semver(st1) {
            Ok((m, st2)) => Ok((Option::Some(m), st2)),
            Err(e) => Err(e),
        },
        Err(e) => Err(e),
    }
}

pub open spec fn prs_channel(st: PState) -> Result<(Channel, PState), Error> {
    match prs_varint_st(st) {
        Ok((v, st1)) => if v == 0 {
            Ok((Channel::Dev, st1))
        } else if v == 1 {
            Ok((Channel::Nightly, st1))
        } else if v == 2 {
            Ok((Channel::Beta, st1))
        } else if v == 3 {
            Ok((Channel::Stable, st1))
        } else {
            Err(Error::InvalidDiscriminant)
        },
        Err(e) => Err(e),
    }
}

pub open spec fn prs_opt_channel(st: PState) -> Result<(Option<Channel>, PState), Error> {
    match prs_flag(st) {
        Ok((false, st1)) => Ok((Option::None, st1)),
        Ok((true, st1)) => match prs_channel(st1) {
            Ok((c, st2)) => Ok((Option::Some(c), st2)),
            Err(e) => Err(e),
        },
        Err(e) => Err(e),
    }
}

pub open spec fn prs_date(st: PState) -> Result<(BuildDate, PState), Error> {
    match prs_u16(st) {
        Ok((year, st1)) => match prs_byte(st1) {
            Ok((month, st2)) => match prs_byte(st2) {
                Ok((day, st3)) => match prs_byte(st3) {
                    Ok((hour, st4)) => match prs_byte(st4) {
                        Ok((minute, st5)) => match prs_byte(st5) {
                            Ok((second, st6)) => match prs_flag(st6) {
                                Ok((offset_west, st7)) => match prs_u16(st7) {
                                    Ok((offset_minutes, st8)) => Ok(
                                        (
                                            BuildDate {
                                                year: year as u16,
                                                month,
                                                day,
                                                hour,
                                                minute,
                                                second,
                                                offset_west,
                                                offset_minutes: offset_minutes as u16,
                                            },
                                            st8,
                                        ),
                                    ),
                                    Err(e) => Err(e),
                                },
                                Err(e) => Err(e),
                            },
                            Err(e) => Err(e),
                        },
                        Err(e) => Err(e),
                    },
                    Err(e) => Err(e),
                },
                Err(e) => Err(e),
            },
            Err(e) => Err(e),
        },
        Err(e) => Err(e),
    }
}

pub open spec fn prs_opt_date(st: PState) -> Result<(Option<BuildDate>, PState), Error> {
    match prs_flag(st) {
        Ok((false, st1)) => Ok((Option::None, st1)),
        Ok((true, st1)) => match prs_date(st1) {
            Ok((d, st2)) => Ok((Option::Some(d), st2)),
            Err(e) => Err(e),
        },
        Err(e) => Err(e),
    }
}

pub open spec fn prs_app(st: PState) -> Result<(AppInfoModel, PState), Error> {
    match prs_opt_str(st) {
        Ok((name, st1)) => match prs_opt_semver(st1) {
            Ok((version, st2)) => match prs_opt_str(st2) {
                Ok((git, st3)) => match prs_opt_date(st3) {
                    Ok((build_date, st4)) => Ok(
                        (AppInfoModel { name, version, git, build_date }, st4),
                    ),
                    Err(e) => Err(e),
                },
                Err(e) => Err(e),
            },
            Err(e) => Err(e),
        },
        Err(e) => Err(e),
    }
}

pub open spec fn prs_rustc(st: PState) -> Result<(RustcInfoModel, PState), Error> {
    match prs_opt_semver(st) {
        Ok((version, st1)) => match prs_opt_semver(st1) {
            Ok((llvm_version, st2)) => match prs_opt_channel(st2) {
                Ok((channel, st3)) => match prs_opt_str(st3) {
                    Ok((git, st4)) => match prs_opt_str(st4) {
                        Ok((host, st5)) => Ok(
                            (RustcInfoModel { version, llvm_version, channel, git, host }, st5),
                        ),
                        Err(e) => Err(e),
                    },
                    Err(e) => Err(e),
                },
                Err(e) => Err(e),
            },
            Err(e) => Err(e),
        },
        Err(e) => Err(e),
    }
}

/// Read the fixed part of a record: everything up to and including the
/// payload presence flag.
pub open spec fn prs_fixed(st: PState) -> Result<(FixedModel, PState), Error> {
    match prs_semver(st) {
        Ok((version, st1)) => match prs_app(st1) {
            Ok((app, st2)) => match prs_rustc(st2) {
                Ok((rustc, st3)) => match prs_flag(st3) {
                    Ok((has_user, st4)) => Ok((FixedModel { version, app, rustc, has_user }, st4)),
                    Err(e) => Err(e),
                },
                Err(e) => Err(e),
            },
            Err(e) => Err(e),
        },
        Err(e) => Err(e),
    }
}

/// Take the whole rest of the source as the payload; the scratch must hold
/// all of it.
pub open spec fn prs_rest(st: PState) -> Result<(Seq<u8>, PState), Error> {
    if !scratch_ok(st.sc, st.b.len()) {
        Err(Error::BufferTooSmall)
    } else {
        Ok(
            (
                st.b,
                PState { b: Seq::empty(), sc: scratch_sub(st.sc, st.b.len()) },
            ),
        )
    }
}

/// Read a whole record: the fixed part, then — when the flag says so — the
/// rest of the source as the payload.
pub open spec fn prs_record(st: PState) -> Result<((FixedModel, Option<Seq<u8>>), PState), Error> {
    match prs_fixed(st) {
        Ok((f, st1)) => if f.has_user {
            match prs_rest(st1) {
                Ok((p, st2)) => Ok(((f, Option::Some(p)), st2)),
                Err(e) => Err(e),
            }
        } else {
            Ok(((f, Option::None), st1))
        },
        Err(e) => Err(e),
    }
}

/// Concatenation of byte sequences is associative.
pub proof fn lemma_seq_assoc(a: Seq<u8>, b: Seq<u8>, c: Seq<u8>)
    ensures
        (a + b) + c == a + (b + c),
{
    assert((a + b) + c =~= a + (b + c));
}

// ---------------------------------------------------------------------------
// Facts about variable-length integers.
// ---------------------------------------------------------------------------

/// A parsed integer is bounded by how many groups may still follow, and its
/// reading consumes at least one and at most the remaining group budget.
pub proof fn lemma_prs_varint_bound(b: Seq<u8>, depth: nat)
    requires
        depth <= 9,
        prs_varint(b, depth) is Ok,
    ensures
        ({
            let r = prs_varint(b, depth)->Ok_0;
            r.0 < pow2((64 - 7 * depth) as nat) && 1 <= r.1 <= 10 - depth && r.1 <= b.len()
        }),
    decreases 10 - depth,
{
    let byte = b[0];
    let r = prs_varint(b, depth)->Ok_0;
    if depth == 9 {
        vstd::arithmetic::power2::lemma2_to64();
        assert(r.0 < pow2(1));
    } else if byte < 0x80 {
        assert(pow2(7) == 128) by {
            vstd::arithmetic::power2::lemma2_to64();
        }
        assert(pow2(7) <= pow2((64 - 7 * depth) as nat)) by {
            if 7 < 64 - 7 * depth {
                vstd::arithmetic::power2::lemma_pow2_strictly_increases(
                    7,
                    (64 - 7 * depth) as nat,
                );
            }
        }
    } else {
        lemma_prs_varint_bound(b.skip(1), depth + 1);
        let rr = prs_varint(b.skip(1), depth + 1)->Ok_0;
        assert(pow2((64 - 7 * (depth + 1)) as nat) * pow2(7) == pow2((64 - 7 * depth) as nat)) by {
            vstd::arithmetic::power2::lemma_pow2_adds(
                (64 - 7 * (depth + 1)) as nat,
                7,
            );
        }
        assert(pow2(7) == 128) by {
            vstd::arithmetic::power2::lemma2_to64();
        }
        assert((byte - 0x80) as nat + rr.0 * 0x80 < pow2((64 - 7 * depth) as nat)) by {
            assert(rr.0 * 0x80 <= (pow2((64 - 7 * (depth + 1)) as nat) - 1) * 0x80) by (
                nonlinear_arith)
                requires
                    rr.0 <= pow2((64 - 7 * (depth + 1)) as nat) - 1,
            ;
        }
    }
}

/// The encoding of an integer takes at most ten bytes, fewer when the value
/// is known to be small.
pub proof fn lemma_enc_varint_len(v: nat, depth: nat)
    requires
        depth <= 9,
        v < pow2((64 - 7 * depth) as nat),
    ensures
        enc_varint(v).len() <= 10 - depth,
    decreases v,
{
    if v < 0x80 {
    } else {
        assert(depth < 9) by {
            if depth == 9 {
                vstd::arithmetic::power2::lemma2_to64();
            }
        }
        assert(pow2((64 - 7 * (depth + 1)) as nat) * pow2(7) == pow2((64 - 7 * depth) as nat)) by {
            vstd::arithmetic::power2::lemma_pow2_adds(
                (64 - 7 * (depth + 1)) as nat,
                7,
            );
        }
        assert(pow2(7) == 128) by {
            vstd::arithmetic::power2::lemma2_to64();
        }
        assert(v / 0x80 < pow2((64 - 7 * (depth + 1)) as nat)) by (nonlinear_arith)
            requires
                v < pow2((64 - 7 * (depth + 1)) as nat) * 128,
        ;
        assert(v / 0x80 < v) by (nonlinear_arith)
            requires
                v >= 0x80,
        ;
        lemma_enc_varint_len(v / 0x80, depth + 1);
    }
}

/// Round trip for one integer: parsing its encoding, with anything after it,
/// yields the integer back and consumes exactly the encoding.
pub proof fn lemma_varint_roundtrip(v: nat, rest: Seq<u8>, depth: nat)
    requires
        depth <= 9,
        v < pow2((64 - 7 * depth) as nat),
    ensures
        prs_varint(enc_varint(v) + rest, depth) == Ok::<(nat, nat), Error>(
            (v, enc_varint(v).len()),
        ),
    decreases v,
{
    lemma_enc_varint_len(v, depth);
    let e = enc_varint(v);
    let whole = e + rest;
    if v < 0x80 {
        assert(whole[0] == v as u8);
        if depth == 9 {
            vstd::arithmetic::power2::lemma2_to64();
            assert(v <= 1);
        }
    } else {
        assert(depth < 9) by {
            if depth == 9 {
                vstd::arithmetic::power2::lemma2_to64();
            }
        }
        let byte = (v % 0x80 + 0x80) as u8;
        assert(v % 0x80 < 0x80);
        assert(whole[0] == byte);
        assert(byte >= 0x80);
        assert(pow2((64 - 7 * (depth + 1)) as nat) * pow2(7) == pow2((64 - 7 * depth) as nat)) by {
            vstd::arithmetic::power2::lemma_pow2_adds(
                (64 - 7 * (depth + 1)) as nat,
                7,
            );
        }
        assert(pow2(7) == 128) by {
            vstd::arithmetic::power2::lemma2_to64();
        }
        assert(v / 0x80 < pow2((64 - 7 * (depth + 1)) as nat)) by (nonlinear_arith)
            requires
                v < pow2((64 - 7 * (depth + 1)) as nat) * 128,
        ;
        assert(v / 0x80 < v) by (nonlinear_arith)
            requires
                v >= 0x80,
        ;
        lemma_varint_roundtrip(v / 0x80, rest, depth + 1);
        assert(whole.skip(1) =~= enc_varint(v / 0x80) + rest);
        let rr = prs_varint(whole.skip(1), depth + 1)->Ok_0;
        assert(rr.0 == v / 0x80);
        lemma_fundamental_div_mod(v as int, 0x80);
        assert((byte - 0x80) as nat + rr.0 * 0x80 == v);
    }
}

/// A parsed integer fits in a machine word of sixty-four bits.
pub proof fn lemma_prs_varint_fits_u64(b: Seq<u8>)
    requires
        prs_varint(b, 0) is Ok,
    ensures
        prs_varint(b, 0)->Ok_0.0 < 0x1_0000_0000_0000_0000,
{
    lemma_prs_varint_bound(b, 0);
    vstd::arithmetic::power2::lemma2_to64_rest();
}

} // verus!
