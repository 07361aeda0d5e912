//! The laws of the wire format, stated and proved once and for all: every
//! well-formed record decodes from its own encoding; deferring the payload
//! decodes the same fixed fields and leaves exactly the payload bytes; and
//! the scratch buffer never changes what is decoded, only whether decoding
//! fits.

use vstd::prelude::*;
use vstd::arithmetic::power2::pow2;
use vstd::utf8::encode_utf8;
use vstd::utf8::encode_utf8_valid_utf8;
use vstd::utf8::encode_utf8_decode_utf8;
use crate::error::Error;
use crate::magic::ScanState;
use crate::magic::after_scan;
use crate::magic::scan_step;
use crate::magic::spec_scan;
use crate::magic::spec_scan_from;
use crate::wire::magic_bytes;
use crate::record::AppInfoModel;
use crate::record::FixedModel;
use crate::record::RustcInfoModel;
use crate::shim::BuildDate;
use crate::shim::Channel;
use crate::shim::SemverModel;
use crate::wire::PState;
use crate::wire::app_need;
use crate::wire::app_wf;
use crate::wire::channel_tag;
use crate::wire::enc_app;
use crate::wire::enc_channel;
use crate::wire::enc_date;
use crate::wire::enc_flag;
use crate::wire::enc_opt_channel;
use crate::wire::enc_opt_date;
use crate::wire::enc_opt_semver;
use crate::wire::enc_opt_str;
use crate::wire::enc_record;
use crate::wire::enc_rustc;
use crate::wire::enc_semver;
use crate::wire::enc_str;
use crate::wire::enc_varint;
use crate::wire::fixed_need;
use crate::wire::fixed_wf;
use crate::wire::lemma_seq_assoc;
use crate::wire::lemma_varint_roundtrip;
use crate::wire::opt_semver_need;
use crate::wire::opt_semver_wf;
use crate::wire::opt_str_need;
use crate::wire::opt_str_wf;
use crate::wire::prs_app;
use crate::wire::prs_byte;
use crate::wire::prs_channel;
use crate::wire::prs_date;
use crate::wire::prs_fixed;
use crate::wire::prs_flag;
use crate::wire::prs_opt_channel;
use crate::wire::prs_opt_date;
use crate::wire::prs_opt_semver;
use crate::wire::prs_opt_str;
use crate::wire::prs_record;
use crate::wire::prs_rustc;
use crate::wire::prs_semver;
use crate::wire::prs_str;
use crate::wire::prs_take;
use crate::wire::prs_u16;
use crate::wire::prs_usize;
use crate::wire::prs_varint_st;
use crate::wire::record_need;
use crate::wire::rustc_need;
use crate::wire::rustc_wf;
use crate::wire::scratch_ok;
use crate::wire::scratch_sub;
use crate::wire::semver_need;
use crate::wire::semver_wf;
use crate::wire::str_need;
use crate::wire::str_wf;

verus! {

/// Reading an integer consumes exactly its encoding and yields it back.
proof fn lemma_varint_st_rt(v: nat, rest: Seq<u8>, sc: Option<nat>)
    requires
        v < pow2(64),
    ensures
        prs_varint_st(PState { b: enc_varint(v) + rest, sc }) == Ok::<(nat, PState), Error>(
            (v, PState { b: rest, sc }),
        ),
{
    vstd::arithmetic::power2::lemma2_to64_rest();
    lemma_varint_roundtrip(v, rest, 0);
    let e = enc_varint(v);
    assert((e + rest).skip(e.len() as int) =~= rest);
}

/// Reading a machine-sized integer consumes exactly its encoding.
proof fn lemma_usize_rt(v: nat, rest: Seq<u8>, sc: Option<nat>)
    requires
        v <= usize::MAX,
    ensures
        prs_usize(PState { b: enc_varint(v) + rest, sc }) == Ok::<(nat, PState), Error>(
            (v, PState { b: rest, sc }),
        ),
{
    vstd::arithmetic::power2::lemma2_to64_rest();
    lemma_varint_st_rt(v, rest, sc);
}

/// Reading a sixteen-bit integer consumes exactly its encoding.
proof fn lemma_u16_rt(v: nat, rest: Seq<u8>, sc: Option<nat>)
    requires
        v <= 0xffff,
    ensures
        prs_u16(PState { b: enc_varint(v) + rest, sc }) == Ok::<(nat, PState), Error>(
            (v, PState { b: rest, sc }),
        ),
{
    vstd::arithmetic::power2::lemma2_to64_rest();
    lemma_varint_st_rt(v, rest, sc);
}

/// Reading a flag consumes exactly its encoding.
proof fn lemma_flag_rt(p: bool, rest: Seq<u8>, sc: Option<nat>)
    ensures
        prs_flag(PState { b: enc_flag(p) + rest, sc }) == Ok::<(bool, PState), Error>(
            (p, PState { b: rest, sc }),
        ),
{
    let whole = enc_flag(p) + rest;
    assert(whole[0] == if p { 1u8 } else { 0u8 });
    assert(whole.skip(1) =~= rest);
}

/// Reading a raw byte consumes exactly that byte.
proof fn lemma_byte_rt(v: u8, rest: Seq<u8>, sc: Option<nat>)
    ensures
        prs_byte(PState { b: seq![v] + rest, sc }) == Ok::<(u8, PState), Error>(
            (v, PState { b: rest, sc }),
        ),
{
    let whole = seq![v] + rest;
    assert(whole[0] == v);
    assert(whole.skip(1) =~= rest);
}

/// Reading a string consumes exactly its encoding, spends its byte count of
/// scratch, and yields its characters back.
proof fn lemma_str_rt(s: Seq<char>, rest: Seq<u8>, sc: Option<nat>)
    requires
        str_wf(s),
        scratch_ok(sc, str_need(s)),
    ensures
        prs_str(PState { b: enc_str(s) + rest, sc }) == Ok::<(Seq<char>, PState), Error>(
            (s, PState { b: rest, sc: scratch_sub(sc, str_need(s)) }),
        ),
{
    let bytes = encode_utf8(s);
    let n = bytes.len();
    assert(enc_str(s) + rest =~= enc_varint(n) + (bytes + rest));
    lemma_usize_rt(n, bytes + rest, sc);
    let st1 = PState { b: bytes + rest, sc };
    assert((bytes + rest).take(n as int) =~= bytes);
    assert((bytes + rest).skip(n as int) =~= rest);
    encode_utf8_valid_utf8(s);
    encode_utf8_decode_utf8(s);
}

/// Reading an optional string consumes exactly its encoding.
proof fn lemma_opt_str_rt(o: Option<Seq<char>>, rest: Seq<u8>, sc: Option<nat>)
    requires
        opt_str_wf(o),
        scratch_ok(sc, opt_str_need(o)),
    ensures
        prs_opt_str(PState { b: enc_opt_str(o) + rest, sc }) == Ok::<
            (Option<Seq<char>>, PState),
            Error,
        >((o, PState { b: rest, sc: scratch_sub(sc, opt_str_need(o)) })),
{
    match o {
        Option::None => {
            lemma_flag_rt(false, rest, sc);
            assert(enc_opt_str(o) + rest =~= enc_flag(false) + rest);
        },
        Option::Some(s) => {
            assert(enc_opt_str(o) + rest =~= enc_flag(true) + (enc_str(s) + rest));
            lemma_flag_rt(true, enc_str(s) + rest, sc);
            lemma_str_rt(s, rest, sc);
        },
    }
}

/// Reading a semantic version consumes exactly its encoding.
proof fn lemma_semver_rt(m: SemverModel, rest: Seq<u8>, sc: Option<nat>)
    requires
        semver_wf(m),
        scratch_ok(sc, semver_need(m)),
    ensures
        prs_semver(PState { b: enc_semver(m) + rest, sc }) == Ok::<(SemverModel, PState), Error>(
            (m, PState { b: rest, sc: scratch_sub(sc, semver_need(m)) }),
        ),
{
    let e1 = enc_varint(m.major as nat);
    let e2 = enc_varint(m.minor as nat);
    let e3 = enc_varint(m.patch as nat);
    let e4 = enc_opt_str(m.pre);
    let e5 = enc_opt_str(m.build);
    let t4 = e5 + rest;
    let t3 = e4 + t4;
    let t2 = e3 + t3;
    let t1 = e2 + t2;
    lemma_seq_assoc(e4, e5, rest);
    lemma_seq_assoc(e3, e4 + e5, rest);
    lemma_seq_assoc(e2, e3 + (e4 + e5), rest);
    lemma_seq_assoc(e1, e2 + (e3 + (e4 + e5)), rest);
    assert(e3 + (e4 + e5) + rest == e3 + t3);
    assert(e2 + (e3 + (e4 + e5)) + rest == e2 + t2);
    assert(enc_semver(m) + rest == e1 + t1);
    lemma_usize_rt(m.major as nat, t1, sc);
    lemma_usize_rt(m.minor as nat, t2, sc);
    lemma_usize_rt(m.patch as nat, t3, sc);
    lemma_opt_str_rt(m.pre, t4, sc);
    lemma_opt_str_rt(m.build, rest, scratch_sub(sc, opt_str_need(m.pre)));
}

/// Reading an optional semantic version consumes exactly its encoding.
proof fn lemma_opt_semver_rt(o: Option<SemverModel>, rest: Seq<u8>, sc: Option<nat>)
    requires
        opt_semver_wf(o),
        scratch_ok(sc, opt_semver_need(o)),
    ensures
        prs_opt_semver(PState { b: enc_opt_semver(o) + rest, sc }) == Ok::<
            (Option<SemverModel>, PState),
            Error,
        >((o, PState { b: rest, sc: scratch_sub(sc, opt_semver_need(o)) })),
{
    match o {
        Option::None => {
            lemma_flag_rt(false, rest, sc);
            assert(enc_opt_semver(o) + rest =~= enc_flag(false) + rest);
        },
        Option::Some(m) => {
            assert(enc_opt_semver(o) + rest =~= enc_flag(true) + (enc_semver(m) + rest));
            lemma_flag_rt(true, enc_semver(m) + rest, sc);
            lemma_semver_rt(m, rest, sc);
        },
    }
}

/// Reading a release channel consumes exactly its encoding.
proof fn lemma_channel_rt(c: Channel, rest: Seq<u8>, sc: Option<nat>)
    ensures
        prs_channel(PState { b: enc_channel(c) + rest, sc }) == Ok::<(Channel, PState), Error>(
            (c, PState { b: rest, sc }),
        ),
{
    vstd::arithmetic::power2::lemma2_to64_rest();
    lemma_varint_st_rt(channel_tag(c), rest, sc);
}

/// Reading an optional release channel consumes exactly its encoding.
proof fn lemma_opt_channel_rt(o: Option<Channel>, rest: Seq<u8>, sc: Option<nat>)
    ensures
        prs_opt_channel(PState { b: enc_opt_channel(o) + rest, sc }) == Ok::<
            (Option<Channel>, PState),
            Error,
        >((o, PState { b: rest, sc })),
{
    match o {
        Option::None => {
            lemma_flag_rt(false, rest, sc);
            assert(enc_opt_channel(o) + rest =~= enc_flag(false) + rest);
        },
        Option::Some(c) => {
            assert(enc_opt_channel(o) + rest =~= enc_flag(true) + (enc_channel(c) + rest));
            lemma_flag_rt(true, enc_channel(c) + rest, sc);
            lemma_channel_rt(c, rest, sc);
        },
    }
}

/// Reading a build timestamp consumes exactly its encoding.
proof fn lemma_date_rt(d: BuildDate, rest: Seq<u8>, sc: Option<nat>)
    ensures
        prs_date(PState { b: enc_date(d) + rest, sc }) == Ok::<(BuildDate, PState), Error>(
            (d, PState { b: rest, sc }),
        ),
{
    let t7 = enc_varint(d.offset_minutes as nat) + rest;
    let t6 = enc_flag(d.offset_west) + t7;
    let t5 = seq![d.second] + t6;
    let t4 = seq![d.minute] + t5;
    let t3 = seq![d.hour] + t4;
    let t2 = seq![d.day] + t3;
    let t1 = seq![d.month] + t2;
    assert(enc_date(d) + rest =~= enc_varint(d.year as nat) + t1);
    lemma_u16_rt(d.year as nat, t1, sc);
    lemma_byte_rt(d.month, t2, sc);
    lemma_byte_rt(d.day, t3, sc);
    lemma_byte_rt(d.hour, t4, sc);
    lemma_byte_rt(d.minute, t5, sc);
    lemma_byte_rt(d.second, t6, sc);
    lemma_flag_rt(d.offset_west, t7, sc);
    lemma_u16_rt(d.offset_minutes as nat, rest, sc);
}

/// Reading an optional build timestamp consumes exactly its encoding.
proof fn lemma_opt_date_rt(o: Option<BuildDate>, rest: Seq<u8>, sc: Option<nat>)
    ensures
        prs_opt_date(PState { b: enc_opt_date(o) + rest, sc }) == Ok::<
            (Option<BuildDate>, PState),
            Error,
        >((o, PState { b: rest, sc })),
{
    match o {
        Option::None => {
            lemma_flag_rt(false, rest, sc);
            assert(enc_opt_date(o) + rest =~= enc_flag(false) + rest);
        },
        Option::Some(d) => {
            assert(enc_opt_date(o) + rest =~= enc_flag(true) + (enc_date(d) + rest));
            lemma_flag_rt(true, enc_date(d) + rest, sc);
            lemma_date_rt(d, rest, sc);
        },
    }
}

/// Reading the application section consumes exactly its encoding.
proof fn lemma_app_rt(m: AppInfoModel, rest: Seq<u8>, sc: Option<nat>)
    requires
        app_wf(m),
        scratch_ok(sc, app_need(m)),
    ensures
        prs_app(PState { b: enc_app(m) + rest, sc }) == Ok::<(AppInfoModel, PState), Error>(
            (m, PState { b: rest, sc: scratch_sub(sc, app_need(m)) }),
        ),
{
    let e1 = enc_opt_str(m.name);
    let e2 = enc_opt_semver(m.version);
    let e3 = enc_opt_str(m.git);
    let e4 = enc_opt_date(m.build_date);
    let t3 = e4 + rest;
    let t2 = e3 + t3;
    let t1 = e2 + t2;
    lemma_seq_assoc(e3, e4, rest);
    lemma_seq_assoc(e2, e3 + e4, rest);
    lemma_seq_assoc(e1, e2 + (e3 + e4), rest);
    assert(e2 + (e3 + e4) + rest == e2 + t2);
    assert(enc_app(m) + rest == e1 + t1);
    lemma_opt_str_rt(m.name, t1, sc);
    let sc1 = scratch_sub(sc, opt_str_need(m.name));
    lemma_opt_semver_rt(m.version, t2, sc1);
    let sc2 = scratch_sub(sc1, opt_semver_need(m.version));
    lemma_opt_str_rt(m.git, t3, sc2);
    let sc3 = scratch_sub(sc2, opt_str_need(m.git));
    lemma_opt_date_rt(m.build_date, rest, sc3);
}

/// Reading the toolchain section consumes exactly its encoding.
proof fn lemma_rustc_rt(m: RustcInfoModel, rest: Seq<u8>, sc: Option<nat>)
    requires
        rustc_wf(m),
        scratch_ok(sc, rustc_need(m)),
    ensures
        prs_rustc(PState { b: enc_rustc(m) + rest, sc }) == Ok::<(RustcInfoModel, PState), Error>(
            (m, PState { b: rest, sc: scratch_sub(sc, rustc_need(m)) }),
        ),
{
    let e1 = enc_opt_semver(m.version);
    let e2 = enc_opt_semver(m.llvm_version);
    let e3 = enc_opt_channel(m.channel);
    let e4 = enc_opt_str(m.git);
    let e5 = enc_opt_str(m.host);
    let t4 = e5 + rest;
    let t3 = e4 + t4;
    let t2 = e3 + t3;
    let t1 = e2 + t2;
    lemma_seq_assoc(e4, e5, rest);
    lemma_seq_assoc(e3, e4 + e5, rest);
    lemma_seq_assoc(e2, e3 + (e4 + e5), rest);
    lemma_seq_assoc(e1, e2 + (e3 + (e4 + e5)), rest);
    assert(e3 + (e4 + e5) + rest == e3 + t3);
    assert(e2 + (e3 + (e4 + e5)) + rest == e2 + t2);
    assert(enc_rustc(m) + rest == e1 + t1);
    lemma_opt_semver_rt(m.version, t1, sc);
    let sc1 = scratch_sub(sc, opt_semver_need(m.version));
    lemma_opt_semver_rt(m.llvm_version, t2, sc1);
    let sc2 = scratch_sub(sc1, opt_semver_need(m.llvm_version));
    lemma_opt_channel_rt(m.channel, t3, sc2);
    lemma_opt_str_rt(m.git, t4, sc2);
    let sc3 = scratch_sub(sc2, opt_str_need(m.git));
    lemma_opt_str_rt(m.host, rest, sc3);
}

/// Reading the fixed part of a record consumes exactly its encoding and
/// yields every field back, the payload presence flag included.
#[verifier::rlimit(100)]
pub proof fn lemma_fixed_rt(f: FixedModel, rest: Seq<u8>, sc: Option<nat>)
    requires
        fixed_wf(f),
        scratch_ok(sc, fixed_need(f)),
    ensures
        prs_fixed(PState { b: crate::wire::enc_fixed(f) + rest, sc }) == Ok::<
            (FixedModel, PState),
            Error,
        >((f, PState { b: rest, sc: scratch_sub(sc, fixed_need(f)) })),
{
    let e1 = enc_semver(f.version);
    let e2 = enc_app(f.app);
    let e3 = enc_rustc(f.rustc);
    let e4 = enc_flag(f.has_user);
    let t3 = e4 + rest;
    let t2 = e3 + t3;
    let t1 = e2 + t2;
    let whole = crate::wire::enc_fixed(f) + rest;
    lemma_seq_assoc(e3, e4, rest);
    lemma_seq_assoc(e2, e3 + e4, rest);
    lemma_seq_assoc(e1, e2 + (e3 + e4), rest);
    assert((e3 + e4) + rest == e3 + t3);
    assert((e2 + (e3 + e4)) + rest == e2 + t2);
    assert(whole == e1 + t1);
    lemma_semver_rt(f.version, t1, sc);
    let sc1 = scratch_sub(sc, semver_need(f.version));
    lemma_app_rt(f.app, t2, sc1);
    let sc2 = scratch_sub(sc1, app_need(f.app));
    lemma_rustc_rt(f.rustc, t3, sc2);
    let sc3 = scratch_sub(sc2, rustc_need(f.rustc));
    lemma_flag_rt(f.has_user, rest, sc3);
}

/// Round trip: a well-formed record, encoded and then parsed with enough
/// scratch, yields exactly its own fields and payload, and leaves nothing
/// unread. This holds of every byte source, since every decoder is specified
/// against the same parse functions.
#[verifier::rlimit(100)]
pub proof fn lemma_record_round_trip(f: FixedModel, user: Option<Seq<u8>>, sc: Option<nat>)
    requires
        fixed_wf(f),
        scratch_ok(sc, record_need(f, user)),
    ensures
        prs_record(PState { b: enc_record(f, user), sc }) == Ok::<
            ((FixedModel, Option<Seq<u8>>), PState),
            Error,
        >(
            (
                (
                    FixedModel {
                        version: f.version,
                        app: f.app,
                        rustc: f.rustc,
                        has_user: user is Some,
                    },
                    user,
                ),
                PState { b: Seq::empty(), sc: scratch_sub(sc, record_need(f, user)) },
            ),
        ),
{
    let f2 = FixedModel { version: f.version, app: f.app, rustc: f.rustc, has_user: user is Some };
    match user {
        Option::None => {
            assert(enc_record(f, user) =~= crate::wire::enc_fixed(f2) + Seq::<u8>::empty());
            lemma_fixed_rt(f2, Seq::empty(), sc);
        },
        Option::Some(p) => {
            assert(enc_record(f, user) =~= crate::wire::enc_fixed(f2) + p);
            lemma_fixed_rt(f2, p, sc);
        },
    }
}

/// Round trip through the framing layer: scanning an encoded record that
/// starts with the magic header consumes exactly the header, and parsing
/// what is left yields the record back.
pub proof fn lemma_round_trip_with_header(f: FixedModel, user: Option<Seq<u8>>, sc: Option<nat>)
    requires
        fixed_wf(f),
        scratch_ok(sc, record_need(f, user)),
    ensures
        after_scan(magic_bytes() + enc_record(f, user)) == enc_record(f, user),
        prs_record(PState { b: after_scan(magic_bytes() + enc_record(f, user)), sc }) == Ok::<
            ((FixedModel, Option<Seq<u8>>), PState),
            Error,
        >(
            (
                (
                    FixedModel {
                        version: f.version,
                        app: f.app,
                        rustc: f.rustc,
                        has_user: user is Some,
                    },
                    user,
                ),
                PState { b: Seq::empty(), sc: scratch_sub(sc, record_need(f, user)) },
            ),
        ),
{
    lemma_scan_finds_magic(enc_record(f, user));
    lemma_record_round_trip(f, user, sc);
}

/// Deferred decode agrees with direct decode: when parsing the fixed part
/// succeeds, parsing the whole record succeeds on exactly the same fixed
/// fields, and the payload a direct decode stores is byte for byte the
/// suffix a deferred decode leaves unread — provided that suffix still fits
/// the scratch; with too little scratch the direct decode reports
/// [`Error::BufferTooSmall`] rather than truncating.
pub proof fn lemma_deferred_equivalence(b: Seq<u8>, sc: Option<nat>)
    requires
        prs_fixed(PState { b, sc }) is Ok,
    ensures
        ({
            let (f, st) = prs_fixed(PState { b, sc })->Ok_0;
            if f.has_user {
                if scratch_ok(st.sc, st.b.len()) {
                    prs_record(PState { b, sc }) matches Ok(p) && p.0.0 == f && p.0.1
                        == Option::Some(st.b)
                } else {
                    prs_record(PState { b, sc }) == Err::<
                        ((FixedModel, Option<Seq<u8>>), PState),
                        Error,
                    >(Error::BufferTooSmall)
                }
            } else {
                prs_record(PState { b, sc }) matches Ok(p) && p.0.0 == f && p.0.1 is None
            }
        }),
{
}

} // verus!

verus! {

/// `sc2` is at least as roomy as `sc1`: whatever fits the one fits the
/// other.
pub open spec fn sc_le(sc1: Option<nat>, sc2: Option<nat>) -> bool {
    match sc2 {
        Option::None => true,
        Option::Some(c2) => match sc1 {
            Option::Some(c1) => c1 <= c2,
            Option::None => false,
        },
    }
}

/// Reading a span parses the same under roomier scratch.
proof fn lemma_take_widen(b: Seq<u8>, n: nat, sc1: Option<nat>, sc2: Option<nat>)
    requires
        sc_le(sc1, sc2),
        prs_take(PState { b, sc: sc1 }, n) is Ok,
    ensures
        ({
            let r1 = prs_take(PState { b, sc: sc1 }, n)->Ok_0;
            let r2 = prs_take(PState { b, sc: sc2 }, n);
            r2 is Ok && r2->Ok_0.0 == r1.0 && r2->Ok_0.1.b == r1.1.b && sc_le(
                r1.1.sc,
                r2->Ok_0.1.sc,
            )
        }),
{
}

/// Reading a string parses the same under roomier scratch.
proof fn lemma_str_widen(b: Seq<u8>, sc1: Option<nat>, sc2: Option<nat>)
    requires
        sc_le(sc1, sc2),
        prs_str(PState { b, sc: sc1 }) is Ok,
    ensures
        ({
            let r1 = prs_str(PState { b, sc: sc1 })->Ok_0;
            let r2 = prs_str(PState { b, sc: sc2 });
            r2 is Ok && r2->Ok_0.0 == r1.0 && r2->Ok_0.1.b == r1.1.b && sc_le(
                r1.1.sc,
                r2->Ok_0.1.sc,
            )
        }),
{
    let st1 = PState { b, sc: sc1 };
    let st2 = PState { b, sc: sc2 };
    let (n, m1) = prs_usize(st1)->Ok_0;
    assert(prs_usize(st2) == Ok::<(nat, PState), Error>((n, PState { b: m1.b, sc: sc2 })));
    lemma_take_widen(m1.b, n, sc1, sc2);
}

/// Reading an optional string parses the same under roomier scratch.
proof fn lemma_opt_str_widen(b: Seq<u8>, sc1: Option<nat>, sc2: Option<nat>)
    requires
        sc_le(sc1, sc2),
        prs_opt_str(PState { b, sc: sc1 }) is Ok,
    ensures
        ({
            let r1 = prs_opt_str(PState { b, sc: sc1 })->Ok_0;
            let r2 = prs_opt_str(PState { b, sc: sc2 });
            r2 is Ok && r2->Ok_0.0 == r1.0 && r2->Ok_0.1.b == r1.1.b && sc_le(
                r1.1.sc,
                r2->Ok_0.1.sc,
            )
        }),
{
    let st1 = PState { b, sc: sc1 };
    let (p, m1) = prs_flag(st1)->Ok_0;
    assert(prs_flag(PState { b, sc: sc2 }) == Ok::<(bool, PState), Error>(
        (p, PState { b: m1.b, sc: sc2 }),
    ));
    if p {
        lemma_str_widen(m1.b, sc1, sc2);
    }
}

/// Reading a semantic version parses the same under roomier scratch.
proof fn lemma_semver_widen(b: Seq<u8>, sc1: Option<nat>, sc2: Option<nat>)
    requires
        sc_le(sc1, sc2),
        prs_semver(PState { b, sc: sc1 }) is Ok,
    ensures
        ({
            let r1 = prs_semver(PState { b, sc: sc1 })->Ok_0;
            let r2 = prs_semver(PState { b, sc: sc2 });
            r2 is Ok && r2->Ok_0.0 == r1.0 && r2->Ok_0.1.b == r1.1.b && sc_le(
                r1.1.sc,
                r2->Ok_0.1.sc,
            )
        }),
{
    let st1 = PState { b, sc: sc1 };
    let (ma, s1) = prs_usize(st1)->Ok_0;
    assert(prs_usize(PState { b, sc: sc2 }) == Ok::<(nat, PState), Error>(
        (ma, PState { b: s1.b, sc: sc2 }),
    ));
    let (mi, s2) = prs_usize(s1)->Ok_0;
    assert(prs_usize(PState { b: s1.b, sc: sc2 }) == Ok::<(nat, PState), Error>(
        (mi, PState { b: s2.b, sc: sc2 }),
    ));
    let (pa, s3) = prs_usize(s2)->Ok_0;
    assert(prs_usize(PState { b: s2.b, sc: sc2 }) == Ok::<(nat, PState), Error>(
        (pa, PState { b: s3.b, sc: sc2 }),
    ));
    lemma_opt_str_widen(s3.b, s3.sc, sc2);
    let s4 = prs_opt_str(s3)->Ok_0.1;
    let s4w = prs_opt_str(PState { b: s3.b, sc: sc2 })->Ok_0.1;
    lemma_opt_str_widen(s4.b, s4.sc, s4w.sc);
}

/// Reading an optional semantic version parses the same under roomier
/// scratch.
proof fn lemma_opt_semver_widen(b: Seq<u8>, sc1: Option<nat>, sc2: Option<nat>)
    requires
        sc_le(sc1, sc2),
        prs_opt_semver(PState { b, sc: sc1 }) is Ok,
    ensures
        ({
            let r1 = prs_opt_semver(PState { b, sc: sc1 })->Ok_0;
            let r2 = prs_opt_semver(PState { b, sc: sc2 });
            r2 is Ok && r2->Ok_0.0 == r1.0 && r2->Ok_0.1.b == r1.1.b && sc_le(
                r1.1.sc,
                r2->Ok_0.1.sc,
            )
        }),
{
    let st1 = PState { b, sc: sc1 };
    let (p, m1) = prs_flag(st1)->Ok_0;
    assert(prs_flag(PState { b, sc: sc2 }) == Ok::<(bool, PState), Error>(
        (p, PState { b: m1.b, sc: sc2 }),
    ));
    if p {
        lemma_semver_widen(m1.b, sc1, sc2);
    }
}

/// Reading the application section parses the same under roomier scratch.
proof fn lemma_app_widen(b: Seq<u8>, sc1: Option<nat>, sc2: Option<nat>)
    requires
        sc_le(sc1, sc2),
        prs_app(PState { b, sc: sc1 }) is Ok,
    ensures
        ({
            let r1 = prs_app(PState { b, sc: sc1 })->Ok_0;
            let r2 = prs_app(PState { b, sc: sc2 });
            r2 is Ok && r2->Ok_0.0 == r1.0 && r2->Ok_0.1.b == r1.1.b && sc_le(
                r1.1.sc,
                r2->Ok_0.1.sc,
            )
        }),
{
    let st1 = PState { b, sc: sc1 };
    lemma_opt_str_widen(b, sc1, sc2);
    let s1 = prs_opt_str(st1)->Ok_0.1;
    let s1w = prs_opt_str(PState { b, sc: sc2 })->Ok_0.1;
    lemma_opt_semver_widen(s1.b, s1.sc, s1w.sc);
    let s2 = prs_opt_semver(s1)->Ok_0.1;
    let s2w = prs_opt_semver(PState { b: s1.b, sc: s1w.sc })->Ok_0.1;
    lemma_opt_str_widen(s2.b, s2.sc, s2w.sc);
    let s3 = prs_opt_str(s2)->Ok_0.1;
    let s3w = prs_opt_str(PState { b: s2.b, sc: s2w.sc })->Ok_0.1;
    assert(prs_opt_date(PState { b: s3.b, sc: s3w.sc }) is Ok && prs_opt_date(
        PState { b: s3.b, sc: s3w.sc },
    )->Ok_0.0 == prs_opt_date(s3)->Ok_0.0 && prs_opt_date(PState { b: s3.b, sc: s3w.sc })->Ok_0.1.b
        == prs_opt_date(s3)->Ok_0.1.b);
}

/// Reading the toolchain section parses the same under roomier scratch.
proof fn lemma_rustc_widen(b: Seq<u8>, sc1: Option<nat>, sc2: Option<nat>)
    requires
        sc_le(sc1, sc2),
        prs_rustc(PState { b, sc: sc1 }) is Ok,
    ensures
        ({
            let r1 = prs_rustc(PState { b, sc: sc1 })->Ok_0;
            let r2 = prs_rustc(PState { b, sc: sc2 });
            r2 is Ok && r2->Ok_0.0 == r1.0 && r2->Ok_0.1.b == r1.1.b && sc_le(
                r1.1.sc,
                r2->Ok_0.1.sc,
            )
        }),
{
    let st1 = PState { b, sc: sc1 };
    lemma_opt_semver_widen(b, sc1, sc2);
    let s1 = prs_opt_semver(st1)->Ok_0.1;
    let s1w = prs_opt_semver(PState { b, sc: sc2 })->Ok_0.1;
    lemma_opt_semver_widen(s1.b, s1.sc, s1w.sc);
    let s2 = prs_opt_semver(s1)->Ok_0.1;
    let s2w = prs_opt_semver(PState { b: s1.b, sc: s1w.sc })->Ok_0.1;
    let (c, s3) = prs_opt_channel(s2)->Ok_0;
    assert(prs_opt_channel(PState { b: s2.b, sc: s2w.sc }) == Ok::<
        (Option<Channel>, PState),
        Error,
    >((c, PState { b: s3.b, sc: s2w.sc })));
    lemma_opt_str_widen(s3.b, s3.sc, s2w.sc);
    let s4 = prs_opt_str(s3)->Ok_0.1;
    let s4w = prs_opt_str(PState { b: s3.b, sc: s2w.sc })->Ok_0.1;
    lemma_opt_str_widen(s4.b, s4.sc, s4w.sc);
}

/// Reading the fixed part parses the same under roomier scratch.
pub proof fn lemma_fixed_widen(b: Seq<u8>, sc1: Option<nat>, sc2: Option<nat>)
    requires
        sc_le(sc1, sc2),
        prs_fixed(PState { b, sc: sc1 }) is Ok,
    ensures
        ({
            let r1 = prs_fixed(PState { b, sc: sc1 })->Ok_0;
            let r2 = prs_fixed(PState { b, sc: sc2 });
            r2 is Ok && r2->Ok_0.0 == r1.0 && r2->Ok_0.1.b == r1.1.b && sc_le(
                r1.1.sc,
                r2->Ok_0.1.sc,
            )
        }),
{
    let st1 = PState { b, sc: sc1 };
    lemma_semver_widen(b, sc1, sc2);
    let s1 = prs_semver(st1)->Ok_0.1;
    let s1w = prs_semver(PState { b, sc: sc2 })->Ok_0.1;
    lemma_app_widen(s1.b, s1.sc, s1w.sc);
    let s2 = prs_app(s1)->Ok_0.1;
    let s2w = prs_app(PState { b: s1.b, sc: s1w.sc })->Ok_0.1;
    lemma_rustc_widen(s2.b, s2.sc, s2w.sc);
    let s3 = prs_rustc(s2)->Ok_0.1;
    let s3w = prs_rustc(PState { b: s2.b, sc: s2w.sc })->Ok_0.1;
    let (u, s4) = prs_flag(s3)->Ok_0;
    assert(prs_flag(PState { b: s3.b, sc: s3w.sc }) == Ok::<(bool, PState), Error>(
        (u, PState { b: s4.b, sc: s3w.sc }),
    ));
}

/// Source equivalence: for the same underlying bytes, what a record decodes
/// to does not depend on the scratch buffer — a slice-backed decode (no
/// scratch) and a byte-at-a-time decode (any sufficient scratch) yield the
/// same fields and the same payload. Roomier scratch can only turn
/// [`Error::BufferTooSmall`] into success, never change a decoded value.
pub proof fn lemma_record_scratch_equivalence(b: Seq<u8>, sc1: Option<nat>, sc2: Option<nat>)
    requires
        sc_le(sc1, sc2),
        prs_record(PState { b, sc: sc1 }) is Ok,
    ensures
        ({
            let r1 = prs_record(PState { b, sc: sc1 })->Ok_0;
            let r2 = prs_record(PState { b, sc: sc2 });
            r2 is Ok && r2->Ok_0.0 == r1.0
        }),
{
    lemma_fixed_widen(b, sc1, sc2);
}

} // verus!

verus! {

/// The scan consumes an immediate sentinel whole and leaves exactly what
/// follows it.
pub proof fn lemma_scan_finds_magic(rest: Seq<u8>)
    ensures
        spec_scan(magic_bytes() + rest) == Option::Some(4nat),
        after_scan(magic_bytes() + rest) == rest,
{
    let w = magic_bytes() + rest;
    let w1 = seq![0x49u8, 0x4du8, 0x80u8] + rest;
    let w2 = seq![0x4du8, 0x80u8] + rest;
    let w3 = seq![0x80u8] + rest;
    assert(w.skip(1) =~= w1);
    assert(w1.skip(1) =~= w2);
    assert(w2.skip(1) =~= w3);
    assert(w3.skip(1) =~= rest);
    assert(spec_scan_from(ScanState::Idle, rest) == Option::Some(0nat));
    assert(spec_scan_from(ScanState::SawM, w3) == Option::Some(1nat));
    assert(spec_scan_from(ScanState::SawI, w2) == Option::Some(2nat));
    assert(spec_scan_from(ScanState::SawP, w1) == Option::Some(3nat));
    assert(spec_scan(w) == Option::Some(4nat));
    assert(w.skip(4) =~= rest);
}

/// Header robustness, for leading bytes that never show the sentinel's
/// first byte: the scan discards them all and behaves as if the stream began
/// right behind them.
pub proof fn lemma_scan_skips_junk(pre: Seq<u8>, b: Seq<u8>)
    requires
        forall|i: int| 0 <= i < pre.len() ==> pre[i] != 0x50,
    ensures
        spec_scan(pre + b) == match spec_scan(b) {
            Option::Some(n) => Option::Some((pre.len() + n) as nat),
            Option::None => Option::None::<nat>,
        },
    decreases pre.len(),
{
    if pre.len() == 0 {
        assert(pre + b =~= b);
    } else {
        let w = pre + b;
        assert(w[0] == pre[0]);
        assert(scan_step(ScanState::SawNone, w[0]) == ScanState::SawNone);
        assert(w.skip(1) =~= pre.skip(1) + b);
        lemma_scan_skips_junk(pre.skip(1), b);
    }
}

/// A stream that never shows the sentinel's first byte never matches: the
/// scan fails, and decoding reports the source exhausted.
pub proof fn lemma_scan_never_matches(b: Seq<u8>)
    requires
        forall|i: int| 0 <= i < b.len() ==> b[i] != 0x50,
    ensures
        spec_scan(b) is None,
    decreases b.len(),
{
    if b.len() > 0 {
        assert(scan_step(ScanState::SawNone, b[0]) == ScanState::SawNone);
        lemma_scan_never_matches(b.skip(1));
    }
}

/// Sentinel self-overlap: when the stream opens with the sentinel's first
/// two bytes and then the whole sentinel, the matcher does not discard the
/// restart wrongly — it finds the true sentinel and leaves exactly the bytes
/// behind it.
pub proof fn lemma_scan_self_overlap(rest: Seq<u8>)
    ensures
        spec_scan(seq![0x50u8, 0x49u8] + (magic_bytes() + rest)) == Option::Some(6nat),
        after_scan(seq![0x50u8, 0x49u8] + (magic_bytes() + rest)) == rest,
{
    let w = seq![0x50u8, 0x49u8] + (magic_bytes() + rest);
    let w1 = seq![0x49u8, 0x50u8, 0x49u8, 0x4du8, 0x80u8] + rest;
    let w2 = seq![0x50u8, 0x49u8, 0x4du8, 0x80u8] + rest;
    let w3 = seq![0x49u8, 0x4du8, 0x80u8] + rest;
    let w4 = seq![0x4du8, 0x80u8] + rest;
    let w5 = seq![0x80u8] + rest;
    assert(w.skip(1) =~= w1);
    assert(w1.skip(1) =~= w2);
    assert(w2.skip(1) =~= w3);
    assert(w3.skip(1) =~= w4);
    assert(w4.skip(1) =~= w5);
    assert(w5.skip(1) =~= rest);
    assert(spec_scan_from(ScanState::Idle, rest) == Option::Some(0nat));
    assert(spec_scan_from(ScanState::SawM, w5) == Option::Some(1nat));
    assert(spec_scan_from(ScanState::SawI, w4) == Option::Some(2nat));
    assert(spec_scan_from(ScanState::SawP, w3) == Option::Some(3nat));
    assert(spec_scan_from(ScanState::SawI, w2) == Option::Some(4nat));
    assert(spec_scan_from(ScanState::SawP, w1) == Option::Some(5nat));
    assert(spec_scan(w) == Option::Some(6nat));
    assert(w.skip(6) =~= rest);
}

} // verus!

verus! {

/// A full sentinel occurrence ends at position `i` of `w`.
pub open spec fn has_magic_end(w: Seq<u8>, i: int) -> bool {
    4 <= i <= w.len() && w.subrange(i - 4, i) == magic_bytes()
}

/// The sentinel bytes a scan state still remembers: the longest tail of
/// what was read that could yet grow into the sentinel.
spec fn pending(s: ScanState) -> Seq<u8> {
    match s {
        ScanState::SawNone => Seq::empty(),
        ScanState::SawP => seq![0x50u8],
        ScanState::SawI => seq![0x50u8, 0x49u8],
        ScanState::SawM => seq![0x50u8, 0x49u8, 0x4du8],
        ScanState::Idle => Seq::empty(),
    }
}

/// The scan from any state finds exactly the first sentinel occurrence in
/// the pending bytes followed by the stream, or correctly reports that none
/// occurs.
proof fn lemma_scan_from_characterizes(s: ScanState, b: Seq<u8>)
    requires
        !(s is Idle),
    ensures
        ({
            let w = pending(s) + b;
            match spec_scan_from(s, b) {
                Option::Some(n) => has_magic_end(w, (pending(s).len() + n) as int) && (forall|m: int|
                    0 <= m < pending(s).len() + n ==> !has_magic_end(w, m)),
                Option::None => forall|m: int| 0 <= m <= w.len() ==> !has_magic_end(w, m),
            }
        }),
    decreases b.len(),
{
    let p = pending(s);
    let w = p + b;
    if b.len() == 0 {
        assert(w.len() <= 3);
    } else {
        let x = b[0];
        let s2 = scan_step(s, x);
        let b2 = b.skip(1);
        if s2 is Idle {
            assert(s is SawM && x == 0x80);
            assert(spec_scan_from(s, b) == Option::Some(1nat));
            assert(w.subrange(0, 4) =~= magic_bytes());
        } else {
            lemma_scan_from_characterizes(s2, b2);
            let p2 = pending(s2);
            let w2 = p2 + b2;
            let delta = p.len() + 1 - p2.len();
            assert(w2 =~= w.skip(delta as int));
            assert(w2.len() + delta == w.len());
            assert forall|m: int| delta + 4 <= m <= w.len() implies (has_magic_end(w, m)
                <==> has_magic_end(w2, m - delta)) by {
                assert(w.subrange(m - 4, m) =~= w2.subrange(m - delta - 4, m - delta));
            }
            assert forall|m: int| 0 <= m < delta + 4 implies !has_magic_end(w, m) by {
                if 4 <= m <= w.len() {
                    let win = w.subrange(m - 4, m);
                    if m <= p.len() {
                        // The pending bytes alone are shorter than the
                        // sentinel.
                        assert(false);
                    } else if m == p.len() + 1 {
                        // The window is the pending bytes plus the byte just
                        // read, which did not complete the sentinel.
                        assert(m == 4 && p.len() == 3);
                        assert(s is SawM && x != 0x80);
                        assert(win[3] == x);
                        assert(win != magic_bytes());
                    } else {
                        // The window begins inside the pending bytes or at
                        // the byte just read, and ends beyond it: were it
                        // the sentinel, a longer tail than the scan kept
                        // would still fit the sentinel's front.
                        let k = m - 4;
                        assert(0 <= k < delta <= p.len() + 1);
                        if win == magic_bytes() {
                            assert(forall|j: int|
                                0 <= j < 4 ==> win[j] == magic_bytes()[j] && win[j] == w[k + j]);
                            lemma_no_longer_tail(s, x, k);
                            assert(false);
                        }
                    }
                }
            }
            match spec_scan_from(s2, b2) {
                Option::Some(n2) => {
                    assert(spec_scan_from(s, b) == Option::Some((n2 + 1) as nat));
                    assert(p.len() + n2 + 1 == delta + (p2.len() + n2));
                    assert(has_magic_end(w, (p.len() + n2 + 1) as int));
                    assert forall|m: int| 0 <= m < p.len() + n2 + 1 implies !has_magic_end(
                        w,
                        m,
                    ) by {
                        if m >= delta + 4 {
                            assert(!has_magic_end(w2, m - delta));
                        }
                    }
                },
                Option::None => {
                    assert(spec_scan_from(s, b) is None);
                    assert forall|m: int| 0 <= m <= w.len() implies !has_magic_end(w, m) by {
                        if m >= delta + 4 {
                            assert(!has_magic_end(w2, m - delta));
                        }
                    }
                },
            }
        }
    }
}

/// After one step, the scan keeps the longest tail that could still grow
/// into the sentinel: no strictly longer tail of the pending bytes plus the
/// byte just read is a front of the sentinel.
proof fn lemma_no_longer_tail(s: ScanState, x: u8, k: int)
    requires
        !(s is Idle),
        !(scan_step(s, x) is Idle),
        0 <= k,
        k + pending(scan_step(s, x)).len() < pending(s).len() + 1,
    ensures
        ({
            let q = pending(s).push(x);
            exists|j: int|
                0 <= j < q.len() - k && #[trigger] q[k + j] != magic_bytes()[j]
        }),
{
    let s2 = scan_step(s, x);
    let q = pending(s).push(x);
    let m = magic_bytes();
    match s {
        ScanState::SawNone => {
            // q = [x], x != 0x50: otherwise the kept tail covers it.
            assert(q[k + 0] != m[0]);
        },
        ScanState::SawP => {
            if x == 0x50 {
                // q = [P, P]; only the tail [P] survives; k == 0.
                assert(q[k + 1] != m[1]);
            } else {
                // x is neither I nor P.
                if k == 0 {
                    assert(q[k + 1] != m[1]);
                } else {
                    assert(q[k + 0] != m[0]);
                }
            }
        },
        ScanState::SawI => {
            if x == 0x50 {
                // q = [P, I, P]; only the tail [P] survives.
                if k == 0 {
                    assert(q[k + 2] != m[2]);
                } else {
                    assert(q[k + 0] != m[0]);
                }
            } else {
                // x is neither M nor P.
                if k == 0 {
                    assert(q[k + 2] != m[2]);
                } else if k == 1 {
                    assert(q[k + 0] != m[0]);
                } else {
                    assert(q[k + 0] != m[0]);
                }
            }
        },
        ScanState::SawM => {
            if x == 0x50 {
                // q = [P, I, M, P]; only the tail [P] survives.
                if k == 0 {
                    assert(q[k + 3] != m[3]);
                } else if k == 1 {
                    assert(q[k + 0] != m[0]);
                } else {
                    assert(q[k + 0] != m[0]);
                }
            } else {
                // x is neither 0x80 nor P.
                if k == 0 {
                    assert(q[k + 3] != m[3]);
                } else if k == 1 {
                    assert(q[k + 0] != m[0]);
                } else if k == 2 {
                    assert(q[k + 0] != m[0]);
                } else {
                    assert(q[k + 0] != m[0]);
                }
            }
        },
        ScanState::Idle => {
            assert(false);
        },
    }
}

/// Header robustness, whole: the scan consumes exactly up to and including
/// the first full sentinel occurrence, and fails exactly when none occurs.
pub proof fn lemma_scan_characterizes(b: Seq<u8>)
    ensures
        match spec_scan(b) {
            Option::Some(n) => has_magic_end(b, n as int) && (forall|m: int|
                0 <= m < n ==> !has_magic_end(b, m)),
            Option::None => forall|m: int| 0 <= m <= b.len() ==> !has_magic_end(b, m),
        },
{
    lemma_scan_from_characterizes(ScanState::SawNone, b);
    assert(pending(ScanState::SawNone) + b =~= b);
}

/// Header robustness as a decoding statement: whatever arbitrary bytes
/// precede it, as long as no earlier sentinel occurrence ends among them,
/// the scan strips exactly the leading bytes and the sentinel, and decoding
/// proceeds on the record alone.
pub proof fn lemma_header_robustness(pre: Seq<u8>, rest: Seq<u8>)
    requires
        forall|m: int| 0 <= m < pre.len() + 4 ==> !has_magic_end((pre + magic_bytes()) + rest, m),
    ensures
        spec_scan((pre + magic_bytes()) + rest) == Option::Some((pre.len() + 4) as nat),
        after_scan((pre + magic_bytes()) + rest) == rest,
{
    let w = (pre + magic_bytes()) + rest;
    lemma_scan_characterizes(w);
    assert(w.subrange(pre.len() as int, (pre.len() + 4) as int) =~= magic_bytes());
    assert(has_magic_end(w, (pre.len() + 4) as int));
    match spec_scan(w) {
        Option::None => {
            assert(false);
        },
        Option::Some(n) => {
            if n < pre.len() + 4 {
                assert(!has_magic_end(w, n as int));
                assert(false);
            }
            if n > pre.len() + 4 {
                assert(!has_magic_end(w, (pre.len() + 4) as int));
                assert(false);
            }
            assert(w.skip(n as int) =~= rest);
        },
    }
}

} // verus!
