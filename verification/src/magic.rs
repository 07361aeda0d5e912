//! Locating the magic header inside an arbitrary byte stream.
//!
//! An encoded record may be preceded by any number of arbitrary bytes and a
//! four-byte sentinel. A small state machine reads the stream one byte at a
//! time and discards everything up to and including the first occurrence of
//! the sentinel; because the sentinel's first byte can recur inside a partial
//! match, the machine restarts a match on that byte instead of falling back
//! to the start. [`Magic`] wraps any byte source with this scan, run once,
//! lazily, when data is first requested: constructing the wrapper reads
//! nothing.

use vstd::prelude::*;
use crate::error::Error;
use crate::source::ByteSource;
use crate::wire::magic_bytes;
use crate::wire::scratch_ok;
use crate::wire::scratch_sub;

verus! {

/// Progress of the header scan: how much of the sentinel the bytes just seen
/// amount to.
#[derive(Debug, Clone, Copy, PartialEq, Eq, Structural)]
pub enum ScanState {
    /// No usable progress; the last byte matched nothing of the sentinel.
    SawNone,
    /// The last byte was the sentinel's first.
    SawP,
    /// The last two bytes were the sentinel's first two.
    SawI,
    /// The last three bytes were the sentinel's first three.
    SawM,
    /// The whole sentinel was seen; every further byte passes through.
    Idle,
}

/// One transition of the scan: the state reached from `s` after reading
/// `byte`.
pub open spec fn scan_step(s: ScanState, byte: u8) -> ScanState {
    match s {
        ScanState::Idle => ScanState::Idle,
        ScanState::SawNone => if byte == 0x50 {
            ScanState::SawP
        } else {
            ScanState::SawNone
        },
        ScanState::SawP => if byte == 0x49 {
            ScanState::SawI
        } else if byte == 0x50 {
            ScanState::SawP
        } else {
            ScanState::SawNone
        },
        ScanState::SawI => if byte == 0x4d {
            ScanState::SawM
        } else if byte == 0x50 {
            ScanState::SawP
        } else {
            ScanState::SawNone
        },
        ScanState::SawM => if byte == 0x80 {
            ScanState::Idle
        } else if byte == 0x50 {
            ScanState::SawP
        } else {
            ScanState::SawNone
        },
    }
}

/// How many bytes of `b` the scan consumes from state `s` before the
/// sentinel is complete; `None` when `b` runs out first.
pub open spec fn spec_scan_from(s: ScanState, b: Seq<u8>) -> Option<nat>
    decreases b.len(),
{
    if s is Idle {
        Option::Some(0)
    } else if b.len() == 0 {
        Option::None
    } else {
        match spec_scan_from(scan_step(s, b[0]), b.skip(1)) {
            Option::Some(n) => Option::Some(n + 1),
            Option::None => Option::None,
        }
    }
}

/// How many bytes the scan consumes from the start of `b`, sentinel
/// included; `None` when no sentinel completes in `b`.
pub open spec fn spec_scan(b: Seq<u8>) -> Option<nat> {
    spec_scan_from(ScanState::SawNone, b)
}

/// What the scan leaves of `b`: the suffix after the sentinel, or nothing
/// when the sentinel never completes.
pub open spec fn after_scan(b: Seq<u8>) -> Seq<u8> {
    match spec_scan(b) {
        Option::Some(n) => b.skip(n as int),
        Option::None => Seq::empty(),
    }
}

/// The scan never consumes more than the stream holds.
proof fn lemma_scan_from_bound(s: ScanState, b: Seq<u8>)
    requires
        spec_scan_from(s, b) is Some,
    ensures
        spec_scan_from(s, b)->0 <= b.len(),
    decreases b.len(),
{
    if s is Idle {
    } else {
        lemma_scan_from_bound(scan_step(s, b[0]), b.skip(1));
    }
}

/// The scan never consumes more than the stream holds.
pub proof fn lemma_scan_bound(b: Seq<u8>)
    requires
        spec_scan(b) is Some,
    ensures
        spec_scan(b)->0 <= b.len(),
{
    lemma_scan_from_bound(ScanState::SawNone, b);
}

/// Run the header scan on `src`: read and discard bytes until the sentinel
/// has been seen whole, leaving `src` positioned just after it.
#[verifier::loop_isolation(false)]
pub fn scan_magic<S: ByteSource>(src: &mut S) -> (r: Result<(), Error>)
    requires
        old(src).wf(),
    ensures
        final(src).wf(),
        old(src).exact() ==> final(src).exact(),
        final(src).spec_budget() <= old(src).spec_budget(),
        old(src).exact() ==> match r {
            Ok(u) => spec_scan(old(src).remaining()) is Some && final(src).remaining() == old(src).remaining().skip(spec_scan(old(src).remaining())->0 as int) && final(src).scratch_left() == old(src).scratch_left(),
            Err(e) => e == Error::SourceExhausted && spec_scan(old(src).remaining()) is None
                && final(src).remaining().len() == 0 && final(src).scratch_left() == old(src).scratch_left(),
        },
{
    let ghost rem0 = old(src).remaining();
    let ghost exact0 = old(src).exact();
    let ghost sc0 = old(src).scratch_left();
    let mut state = ScanState::SawNone;
    let ghost consumed: int = 0;
    loop
        invariant
            src.wf(),
            exact0 ==> src.exact(),
            src.spec_budget() <= old(src).spec_budget(),
            !(state is Idle),
            exact0 ==> {
                &&& 0 <= consumed <= rem0.len()
                &&& src.remaining() == rem0.skip(consumed)
                &&& src.scratch_left() == sc0
                &&& match spec_scan_from(state, src.remaining()) {
                    Option::Some(n) => spec_scan(rem0) == Option::Some((consumed + n) as nat),
                    Option::None => spec_scan(rem0) is None,
                }
            },
        decreases src.spec_budget(),
    {
        match src.pop() {
            Err(e) => {
                proof {
                    if exact0 {
                        assert(src.remaining().len() == 0);
                        assert(spec_scan_from(state, src.remaining()) is None);
                    }
                }
                return Err(Error::SourceExhausted);
            },
            Ok(byte) => {
                let next = match state {
                    ScanState::Idle => ScanState::Idle,
                    ScanState::SawNone => if byte == 0x50 {
                        ScanState::SawP
                    } else {
                        ScanState::SawNone
                    },
                    ScanState::SawP => if byte == 0x49 {
                        ScanState::SawI
                    } else if byte == 0x50 {
                        ScanState::SawP
                    } else {
                        ScanState::SawNone
                    },
                    ScanState::SawI => if byte == 0x4d {
                        ScanState::SawM
                    } else if byte == 0x50 {
                        ScanState::SawP
                    } else {
                        ScanState::SawNone
                    },
                    ScanState::SawM => if byte == 0x80 {
                        ScanState::Idle
                    } else if byte == 0x50 {
                        ScanState::SawP
                    } else {
                        ScanState::SawNone
                    },
                };
                proof {
                    assert(next == scan_step(state, byte));
                    if exact0 {
                        assert(rem0.skip(consumed).len() > 0);
                        assert(src.remaining() =~= rem0.skip(consumed + 1));
                    }
                    consumed = consumed + 1;
                }
                if matches!(next, ScanState::Idle) {
                    proof {
                        if exact0 {
                            assert(spec_scan_from(next, src.remaining()) == Option::Some(0nat));
                            assert(spec_scan(rem0) == Option::Some(consumed as nat));
                        }
                    }
                    return Ok(());
                }
                state = next;
            },
        }
    }
}

/// A byte source that locates the magic header in another source and then
/// passes everything after it through unchanged. The scan runs once, when
/// data is first requested; constructing the wrapper is free.
pub struct Magic<S> where S: ByteSource {
    src: S,
    scanned: bool,
}

impl<S> Magic<S> where S: ByteSource {
    /// Wrap `src`; nothing is read until data is requested.
    pub fn new(src: S) -> (r: Self)
        requires
            src.wf(),
        ensures
            r.wf(),
            src.exact() ==> r.exact(),
            r.remaining() == after_scan(src.remaining()),
            r.scratch_left() == src.scratch_left(),
            !r.spec_scanned(),
    {
        Magic { src, scanned: false }
    }

    /// Whether the header has already been consumed.
    pub closed spec fn spec_scanned(&self) -> bool {
        self.scanned
    }

    /// Whether the header has already been consumed.
    pub fn is_scanned(&self) -> (r: bool)
        ensures
            r == self.spec_scanned(),
    {
        self.scanned
    }

    /// Hand back the wrapped source. Once the header was consumed, the
    /// source stands exactly where this wrapper stood.
    pub fn into_inner(self) -> (r: S)
        requires
            self.wf(),
        ensures
            r.wf(),
            self.exact() ==> r.exact(),
            self.spec_scanned() ==> r.remaining() == self.remaining() && r.scratch_left()
                == self.scratch_left(),
    {
        self.src
    }

    /// Hand back the wrapped source as a deferred-decode continuation:
    /// refused when the header was never consumed, since the source then
    /// stands at no known position of the record.
    pub fn try_into_inner(self) -> (r: Result<S, Error>)
        requires
            self.wf(),
        ensures
            self.spec_scanned() <==> r is Ok,
            r is Ok ==> r->Ok_0.wf() && r->Ok_0.remaining() == self.remaining()
                && r->Ok_0.scratch_left() == self.scratch_left() && (self.exact()
                ==> r->Ok_0.exact()),
            r is Err ==> r->Err_0 == Error::NotResumable,
    {
        if self.scanned {
            Ok(self.src)
        } else {
            Err(Error::NotResumable)
        }
    }

    /// Run the scan now if it has not run yet.
    fn ensure_scanned(&mut self) -> (r: Result<(), Error>)
        requires
            old(self).wf(),
        ensures
            final(self).wf(),
            old(self).exact() ==> final(self).exact(),
            final(self).spec_budget() <= old(self).spec_budget(),
            r is Ok ==> final(self).spec_scanned(),
            old(self).exact() ==> match r {
                Ok(u) => final(self).src.remaining() == old(self).remaining() && final(self).remaining() == old(self).remaining() && final(self).scratch_left() == old(self).scratch_left(),
                Err(e) => e == Error::SourceExhausted && old(self).remaining().len() == 0 && final(self).remaining().len() == 0 && final(self).scratch_left() == old(self).scratch_left(),
            },
    {
        if self.scanned {
            return Ok(());
        }
        let ghost rem0 = self.src.remaining();
        match scan_magic(&mut self.src) {
            Ok(()) => {
                self.scanned = true;
                proof {
                    if old(self).exact() {
                        lemma_scan_bound(rem0);
                    }
                }
                Ok(())
            },
            Err(e) => {
                proof {
                    if old(self).exact() {
                        assert(after_scan(rem0) =~= Seq::<u8>::empty());
                        assert(after_scan(self.src.remaining()) =~= Seq::<u8>::empty());
                    }
                }
                Err(e)
            },
        }
    }
}

impl<S> ByteSource for Magic<S> where S: ByteSource {
    closed spec fn wf(&self) -> bool {
        self.src.wf()
    }

    closed spec fn remaining(&self) -> Seq<u8> {
        if self.scanned {
            self.src.remaining()
        } else {
            after_scan(self.src.remaining())
        }
    }

    closed spec fn exact(&self) -> bool {
        self.src.exact()
    }

    closed spec fn scratch_left(&self) -> Option<nat> {
        self.src.scratch_left()
    }

    closed spec fn spec_budget(&self) -> nat {
        self.src.spec_budget()
    }

    fn scratch_free(&self) -> (r: Option<usize>) {
        self.src.scratch_free()
    }

    fn pop(&mut self) -> (r: Result<u8, Error>) {
        match self.ensure_scanned() {
            Ok(()) => self.src.pop(),
            Err(e) => Err(e),
        }
    }

    fn take_n(&mut self, n: usize) -> (r: Result<Vec<u8>, Error>) {
        if n == 0 {
            let v: Vec<u8> = Vec::new();
            proof {
                if self.exact() {
                    assert(v@ =~= self.remaining().take(0));
                    assert(self.remaining() =~= self.remaining().skip(0));
                }
            }
            return Ok(v);
        }
        match self.src.scratch_free() {
            Some(c) => {
                if n > c {
                    return Err(Error::BufferTooSmall);
                }
            },
            None => {},
        }
        match self.ensure_scanned() {
            Ok(()) => self.src.take_n(n),
            Err(e) => Err(e),
        }
    }

    fn take_rest(&mut self) -> (r: Result<Vec<u8>, Error>) {
        match self.ensure_scanned() {
            Ok(()) => self.src.take_rest(),
            Err(e) => {
                let v: Vec<u8> = Vec::new();
                proof {
                    if old(self).exact() {
                        assert(v@ =~= old(self).remaining());
                    }
                }
                Ok(v)
            },
        }
    }
}

} // verus!
