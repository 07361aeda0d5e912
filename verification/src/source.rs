//! Sequential byte sources.
//!
//! The codec never assumes a record is available as one contiguous slice: it
//! reads through the [`ByteSource`] interface, one byte or one span at a
//! time. Three suppliers conform to it: a cursor over an in-memory slice, a
//! scratch-buffered adapter over any one-byte reader, and — through that
//! adapter — an address range paired with a caller-supplied fetch procedure.
//!
//! Each source carries ghost aspects. `remaining()` is the sequence of bytes
//! the source is expected to yield. `exact()` says that the source provably
//! yields those very bytes and fails only once they are gone: a slice-backed
//! source is always exact, while a source driven by an arbitrary fetch
//! procedure is exact only when the procedure is known to agree with
//! `remaining()`. Every guarantee about values and progress is conditional
//! on `exact()`; what holds of every source is only its consistency and a
//! non-increasing `spec_budget()`, which bounds how many more bytes it can
//! yield and so keeps every reading loop terminating.

use vstd::prelude::*;
use vstd::slice::slice_to_vec;
use crate::error::Error;
use crate::error::SequentialReadError;
use crate::wire::PState;
use crate::wire::scratch_ok;
use crate::wire::scratch_sub;

verus! {

/// Abstract supplier of bytes: one at a time, as a span of an exact length,
/// or everything left at once.
pub trait ByteSource: Sized {
    /// Internal consistency of the source.
    spec fn wf(&self) -> bool;

    /// The bytes this source is expected to yield, in order.
    spec fn remaining(&self) -> Seq<u8>;

    /// True when the source provably yields exactly `remaining()` and fails
    /// only once they are exhausted.
    spec fn exact(&self) -> bool;

    /// Free space in the scratch buffer backing span requests; `None` when
    /// spans need no scratch.
    spec fn scratch_left(&self) -> Option<nat>;

    /// An upper bound on how many more bytes the source can yield, whatever
    /// it does at run time.
    spec fn spec_budget(&self) -> nat;

    /// Free space in the scratch buffer, as a run-time value.
    fn scratch_free(&self) -> (r: Option<usize>)
        requires
            self.wf(),
        ensures
            match r {
                Option::None => self.scratch_left() is None,
                Option::Some(c) => self.scratch_left() == Option::Some(c as nat),
            },
    ;

    /// Read exactly one byte.
    fn pop(&mut self) -> (r: Result<u8, Error>)
        requires
            old(self).wf(),
        ensures
            final(self).wf(),
            old(self).exact() ==> final(self).exact(),
            r is Ok ==> final(self).spec_budget() < old(self).spec_budget(),
            r is Err ==> final(self).spec_budget() <= old(self).spec_budget(),
            old(self).exact() ==> match r {
                Ok(b) => old(self).remaining().len() > 0 && b == old(self).remaining()[0] && final(self).remaining() == old(self).remaining().skip(1) && final(self).scratch_left() == old(self).scratch_left(),
                Err(e) => e == Error::SourceExhausted && old(self).remaining().len() == 0 && final(self).remaining() == old(self).remaining() && final(self).scratch_left() == old(self).scratch_left(),
            },
    ;

    /// Return a span of exactly `n` bytes.
    fn take_n(&mut self, n: usize) -> (r: Result<Vec<u8>, Error>)
        requires
            old(self).wf(),
        ensures
            final(self).wf(),
            old(self).exact() ==> final(self).exact(),
            final(self).spec_budget() <= old(self).spec_budget(),
            old(self).exact() ==> match r {
                Ok(v) => v@.len() == n && n <= old(self).remaining().len() && scratch_ok(
                    old(self).scratch_left(),
                    n as nat,
                ) && v@ == old(self).remaining().take(n as int) && final(self).remaining() == old(self).remaining().skip(n as int) && final(self).scratch_left() == scratch_sub(
                    old(self).scratch_left(),
                    n as nat,
                ),
                Err(e) => {
                    &&& (e == Error::BufferTooSmall <==> !scratch_ok(
                        old(self).scratch_left(),
                        n as nat,
                    ))
                    &&& (e != Error::BufferTooSmall ==> e == Error::SourceExhausted && old(self).remaining().len() < n)
                },
            },
    ;

    /// Return every byte the source still holds.
    fn take_rest(&mut self) -> (r: Result<Vec<u8>, Error>)
        requires
            old(self).wf(),
        ensures
            final(self).wf(),
            old(self).exact() ==> final(self).exact(),
            final(self).spec_budget() <= old(self).spec_budget(),
            old(self).exact() ==> match r {
                Ok(v) => v@ == old(self).remaining() && final(self).remaining().len() == 0
                    && scratch_ok(old(self).scratch_left(), v@.len()) && final(self).scratch_left()
                    == scratch_sub(old(self).scratch_left(), v@.len()),
                Err(e) => e == Error::BufferTooSmall && !scratch_ok(
                    old(self).scratch_left(),
                    old(self).remaining().len(),
                ),
            },
    ;
}

/// The parser state a source stands at: its unread bytes and free scratch.
pub open spec fn src_state<S: ByteSource>(s: &S) -> PState {
    PState { b: s.remaining(), sc: s.scratch_left() }
}

// ---------------------------------------------------------------------------
// Slice-backed source
// ---------------------------------------------------------------------------

/// A byte source over a contiguous in-memory slice: a cursor that advances,
/// with no scratch buffer and no way to fail but exhaustion.
pub struct SliceSource<'a> {
    data: &'a [u8],
    pos: usize,
}

impl<'a> SliceSource<'a> {
    /// Start reading at the front of `data`.
    pub fn new(data: &'a [u8]) -> (r: Self)
        ensures
            r.wf(),
            r.exact(),
            r.remaining() == data@,
            r.scratch_left() is None,
            r.spec_position() == 0,
    {
        let r = SliceSource { data, pos: 0 };
        proof {
            assert(r.remaining() =~= data@);
        }
        r
    }

    /// How many bytes of the slice lie before the cursor.
    pub closed spec fn spec_position(&self) -> nat {
        self.pos as nat
    }

    /// The cursor: how many bytes were consumed so far.
    pub fn position(&self) -> (r: usize)
        ensures
            r == self.spec_position(),
    {
        self.pos
    }

    /// The part of the slice not yet consumed.
    pub fn rest(&self) -> (r: &'a [u8])
        requires
            self.wf(),
        ensures
            r@ == self.remaining(),
    {
        slice_subrange(self.data, self.pos, self.data.len())
    }
}

impl<'a> ByteSource for SliceSource<'a> {
    closed spec fn wf(&self) -> bool {
        self.pos <= self.data@.len()
    }

    closed spec fn remaining(&self) -> Seq<u8> {
        self.data@.skip(self.pos as int)
    }

    closed spec fn exact(&self) -> bool {
        true
    }

    closed spec fn scratch_left(&self) -> Option<nat> {
        Option::None
    }

    closed spec fn spec_budget(&self) -> nat {
        (self.data@.len() - self.pos) as nat
    }

    fn scratch_free(&self) -> (r: Option<usize>) {
        None
    }

    fn pop(&mut self) -> (r: Result<u8, Error>) {
        if self.pos < self.data.len() {
            let b = self.data[self.pos];
            self.pos = self.pos + 1;
            proof {
                assert(self.remaining() =~= old(self).remaining().skip(1));
            }
            Ok(b)
        } else {
            Err(Error::SourceExhausted)
        }
    }

    fn take_n(&mut self, n: usize) -> (r: Result<Vec<u8>, Error>) {
        if n > self.data.len() - self.pos {
            return Err(Error::SourceExhausted);
        }
        let span = slice_subrange(self.data, self.pos, self.pos + n);
        let v = slice_to_vec(span);
        self.pos = self.pos + n;
        proof {
            assert(self.remaining() =~= old(self).remaining().skip(n as int));
            assert(v@ =~= old(self).remaining().take(n as int));
        }
        Ok(v)
    }

    fn take_rest(&mut self) -> (r: Result<Vec<u8>, Error>) {
        let span = slice_subrange(self.data, self.pos, self.data.len());
        let v = slice_to_vec(span);
        self.pos = self.data.len();
        proof {
            assert(self.remaining() =~= Seq::<u8>::empty());
            assert(v@ =~= old(self).remaining());
        }
        Ok(v)
    }
}

/// Copy out the subrange `[from, to)` of a slice.
fn slice_subrange<'a>(s: &'a [u8], from: usize, to: usize) -> (r: &'a [u8])
    requires
        from <= to <= s@.len(),
    ensures
        r@ == s@.subrange(from as int, to as int),
{
    &s[from..to]
}

// ---------------------------------------------------------------------------
// One-byte readers
// ---------------------------------------------------------------------------

/// A reader that yields one byte per call, possibly at a cost: the shape a
/// non-addressable memory presents. The ghost aspects mean the same as on
/// [`ByteSource`]; here the structural guarantees hold of every reader, and
/// only the yielded values are conditional on `exact()`.
pub trait SequentialRead: Sized {
    /// Internal consistency of the reader.
    spec fn wf(&self) -> bool;

    /// The bytes this reader is expected to yield, in order.
    spec fn remaining(&self) -> Seq<u8>;

    /// True when the reader provably yields exactly `remaining()` and fails
    /// only once they are exhausted.
    spec fn exact(&self) -> bool;

    /// How many bytes of the underlying stream lie before the next one.
    spec fn spec_position(&self) -> nat;

    /// Read the next byte.
    fn sequential_read(&mut self) -> (r: Result<u8, SequentialReadError>)
        requires
            old(self).wf(),
        ensures
            final(self).wf(),
            old(self).exact() ==> final(self).exact(),
            r is Ok ==> old(self).remaining().len() > 0 && final(self).remaining() == old(self).remaining().skip(1) && final(self).spec_position() == old(self).spec_position() + 1,
            r is Ok && old(self).exact() ==> r->Ok_0 == old(self).remaining()[0],
            r is Err ==> final(self).remaining() == old(self).remaining() && final(self).spec_position() == old(self).spec_position(),
            r is Err && old(self).exact() ==> old(self).remaining().len() == 0,
            old(self).exact() && old(self).remaining().len() > 0 ==> r is Ok,
    ;

    /// The current absolute position of the reader.
    fn position(&self) -> (r: usize)
        requires
            self.wf(),
        ensures
            r == self.spec_position(),
    ;
}

/// A reader over a range of abstract addresses, each fetched by a
/// caller-supplied procedure: the byte may live in another address space or
/// behind a peripheral, and every read may fail.
pub struct FetchSource<F> where F: Fn(usize) -> Result<u8, SequentialReadError> {
    next: usize,
    end: usize,
    fetch: F,
    data: Ghost<Seq<u8>>,
}

/// True when, for every address of the range at hand, everything the fetch
/// procedure can return is the matching byte of `data`.
pub open spec fn fetch_agrees<F: Fn(usize) -> Result<u8, SequentialReadError>>(
    f: &F,
    next: nat,
    data: Seq<u8>,
) -> bool {
    forall|k: int, ret: Result<u8, SequentialReadError>|
        0 <= k < data.len() && #[trigger] call_ensures(*f, (((next + k) as usize),), ret) ==> ret
            is Ok && ret->Ok_0 == data[k]
}

impl<F> FetchSource<F> where F: Fn(usize) -> Result<u8, SequentialReadError> {
    /// Read the addresses `start..end` through `f`, with nothing assumed
    /// about what `f` yields.
    pub fn new(start: usize, end: usize, f: F) -> (r: Self)
        requires
            start <= end,
            forall|a: usize| #[trigger] call_requires(f, (a,)),
        ensures
            r.wf(),
            r.remaining().len() == end - start,
            r.spec_position() == start,
    {
        let ghost n = (end - start) as nat;
        FetchSource { next: start, end, fetch: f, data: Ghost(Seq::new(n, |i: int| 0u8)) }
    }

    /// Read the addresses `start..end` through `f`, which is known to yield
    /// exactly the bytes of `data`: the resulting reader is exact.
    pub fn new_checked(start: usize, end: usize, f: F, data: Ghost<Seq<u8>>) -> (r: Self)
        requires
            start <= end,
            data@.len() == end - start,
            forall|a: usize| #[trigger] call_requires(f, (a,)),
            fetch_agrees(&f, start as nat, data@),
        ensures
            r.wf(),
            r.exact(),
            r.remaining() == data@,
            r.spec_position() == start,
    {
        FetchSource { next: start, end, fetch: f, data }
    }
}

impl<F> SequentialRead for FetchSource<F> where F: Fn(usize) -> Result<u8, SequentialReadError> {
    closed spec fn wf(&self) -> bool {
        &&& self.next <= self.end
        &&& self.data@.len() == self.end - self.next
        &&& forall|a: usize| #[trigger] call_requires(self.fetch, (a,))
    }

    closed spec fn remaining(&self) -> Seq<u8> {
        self.data@
    }

    closed spec fn exact(&self) -> bool {
        fetch_agrees(&self.fetch, self.next as nat, self.data@)
    }

    closed spec fn spec_position(&self) -> nat {
        self.next as nat
    }

    fn sequential_read(&mut self) -> (r: Result<u8, SequentialReadError>) {
        if self.next >= self.end {
            return Err(SequentialReadError);
        }
        let addr = self.next;
        match (self.fetch)(addr) {
            Ok(b) => {
                proof {
                    if self.exact() {
                        let k: int = 0;
                        assert(call_ensures(
                            self.fetch,
                            (((self.next as nat + k) as usize),),
                            Ok::<u8, SequentialReadError>(b),
                        ));
                        assert(b == self.data@[0]);
                    }
                }
                self.next = addr + 1;
                proof {
                    self.data@ = self.data@.skip(1);
                    if old(self).exact() {
                        assert forall|k: int, ret: Result<u8, SequentialReadError>|
                            0 <= k < self.data@.len() && #[trigger] call_ensures(
                                self.fetch,
                                (((self.next as nat + k) as usize),),
                                ret,
                            ) implies ret is Ok && ret->Ok_0 == self.data@[k] by {
                            let k0: int = k + 1;
                            assert(call_ensures(
                                old(self).fetch,
                                (((old(self).next as nat + k0) as usize),),
                                ret,
                            ));
                        }
                        assert(self.exact());
                    }
                }
                Ok(b)
            },
            Err(e) => {
                proof {
                    if self.exact() {
                        let k: int = 0;
                        assert(call_ensures(
                            self.fetch,
                            (((self.next as nat + k) as usize),),
                            Err::<u8, SequentialReadError>(e),
                        ));
                        assert(false);
                    }
                }
                Err(e)
            },
        }
    }

    fn position(&self) -> (r: usize) {
        self.next
    }
}

// ---------------------------------------------------------------------------
// Scratch-buffered adapter
// ---------------------------------------------------------------------------

/// Adapter that turns any one-byte reader into a full [`ByteSource`] by
/// copying requested spans into a caller-provided scratch buffer, one byte at
/// a time. The scratch is never grown: a span that does not fit fails with
/// [`Error::BufferTooSmall`].
pub struct SeqSource<S> where S: SequentialRead {
    src: S,
    scratch: Vec<u8>,
    used: usize,
}

impl<S> SeqSource<S> where S: SequentialRead {
    /// Wrap `src`, with `scratch` as the span buffer.
    pub fn new(src: S, scratch: Vec<u8>) -> (r: Self)
        requires
            src.wf(),
        ensures
            r.wf(),
            r.remaining() == src.remaining(),
            src.exact() ==> r.exact(),
            r.scratch_left() == Option::Some(scratch@.len()),
            r.spec_position() == src.spec_position(),
    {
        SeqSource { src, scratch, used: 0 }
    }

    /// How many bytes of the underlying stream lie before the next one.
    pub closed spec fn spec_position(&self) -> nat {
        self.src.spec_position()
    }

    /// The current absolute position of the inner reader.
    pub fn position(&self) -> (r: usize)
        requires
            self.wf(),
        ensures
            r == self.spec_position(),
    {
        self.src.position()
    }

    /// Hand back the inner reader and the scratch buffer.
    pub fn into_parts(self) -> (r: (S, Vec<u8>))
        requires
            self.wf(),
        ensures
            r.0.wf(),
            r.0.remaining() == self.remaining(),
            self.exact() ==> r.0.exact(),
            r.0.spec_position() == self.spec_position(),
    {
        (self.src, self.scratch)
    }

    #[verifier::loop_isolation(false)]
    fn take_n_inner(&mut self, n: usize) -> (r: Result<Vec<u8>, Error>)
        requires
            old(self).wf(),
        ensures
            final(self).wf(),
            old(self).exact() ==> final(self).exact(),
            final(self).remaining().len() <= old(self).remaining().len(),
            r is Ok ==> r->Ok_0@.len() == n && old(self).remaining().len() >= n && scratch_ok(
                old(self).scratch_left(),
                n as nat,
            ) && final(self).remaining() == old(self).remaining().skip(n as int) && final(self).scratch_left() == scratch_sub(old(self).scratch_left(), n as nat),
            r is Ok && old(self).exact() ==> r->Ok_0@ == old(self).remaining().take(n as int),
            r is Err && old(self).exact() ==> {
                &&& (r->Err_0 == Error::BufferTooSmall <==> !scratch_ok(
                    old(self).scratch_left(),
                    n as nat,
                ))
                &&& (r->Err_0 != Error::BufferTooSmall ==> r->Err_0 == Error::SourceExhausted
                    && old(self).remaining().len() < n)
            },
    {
        if n > self.scratch.len() - self.used {
            return Err(Error::BufferTooSmall);
        }
        let ghost rem0 = self.src.remaining();
        let ghost exact0 = self.src.exact();
        let ghost pos0 = self.src.spec_position();
        let ghost used0 = self.used as int;
        let ghost slen0 = self.scratch@.len();
        let mut out: Vec<u8> = Vec::new();
        let mut i: usize = 0;
        proof {
            assert(self.src.remaining() =~= rem0.skip(0));
            assert(out@ =~= rem0.take(0));
        }
        while i < n
            invariant
                self.src.wf(),
                self.used <= self.scratch@.len(),
                i <= n,
                out@.len() == i,
                n - i <= self.scratch@.len() - self.used,
                self.scratch@.len() == slen0,
                self.used == used0 + i,
                exact0 ==> self.src.exact(),
                i <= rem0.len(),
                self.src.remaining() == rem0.skip(i as int),
                self.src.spec_position() == pos0 + i,
                exact0 ==> out@ == rem0.take(i as int),
            decreases n - i,
        {
            match self.src.sequential_read() {
                Ok(b) => {
                    proof {
                        assert(rem0.skip(i as int).len() > 0);
                        assert(self.src.remaining() =~= rem0.skip(i + 1));
                        if exact0 {
                            assert(out@.push(b) =~= rem0.take(i + 1));
                        }
                    }
                    self.scratch[self.used] = b;
                    self.used = self.used + 1;
                    out.push(b);
                    i = i + 1;
                },
                Err(_) => {
                    proof {
                        if exact0 {
                            assert(rem0.len() == i);
                        }
                    }
                    return Err(Error::SourceExhausted);
                },
            }
        }
        Ok(out)
    }

    #[verifier::loop_isolation(false)]
    fn take_rest_inner(&mut self) -> (r: Result<Vec<u8>, Error>)
        requires
            old(self).wf(),
        ensures
            final(self).wf(),
            old(self).exact() ==> final(self).exact(),
            final(self).remaining().len() <= old(self).remaining().len(),
            r is Ok ==> scratch_ok(old(self).scratch_left(), r->Ok_0@.len()) && final(self).scratch_left() == scratch_sub(old(self).scratch_left(), r->Ok_0@.len()),
            r is Ok && old(self).exact() ==> r->Ok_0@ == old(self).remaining() && final(self).remaining().len() == 0,
            r is Err && old(self).exact() ==> r->Err_0 == Error::BufferTooSmall && !scratch_ok(
                old(self).scratch_left(),
                old(self).remaining().len(),
            ),
    {
        let ghost rem0 = self.src.remaining();
        let ghost exact0 = self.src.exact();
        let ghost pos0 = self.src.spec_position();
        let ghost used0 = self.used as int;
        let ghost slen0 = self.scratch@.len();
        let mut out: Vec<u8> = Vec::new();
        proof {
            assert(self.src.remaining() =~= rem0.skip(0));
            assert(out@ =~= rem0.take(0));
        }
        loop
            invariant
                self.src.wf(),
                self.used <= self.scratch@.len(),
                self.scratch@.len() == slen0,
                self.used == used0 + out@.len(),
                exact0 ==> self.src.exact(),
                out@.len() <= rem0.len(),
                self.src.remaining() == rem0.skip(out@.len() as int),
                self.src.spec_position() == pos0 + out@.len(),
                exact0 ==> out@ == rem0.take(out@.len() as int),
            decreases self.src.remaining().len(),
        {
            match self.src.sequential_read() {
                Err(_) => {
                    proof {
                        if exact0 {
                            assert(out@ =~= rem0);
                        }
                    }
                    return Ok(out);
                },
                Ok(b) => {
                    if self.used >= self.scratch.len() {
                        proof {
                            if exact0 {
                                assert(rem0.len() >= out@.len() + 1);
                            }
                        }
                        return Err(Error::BufferTooSmall);
                    }
                    let ghost len0: int = out@.len() as int;
                    proof {
                        assert(rem0.skip(len0).len() > 0);
                        assert(self.src.remaining() =~= rem0.skip(len0 + 1));
                        if exact0 {
                            assert(out@.push(b) =~= rem0.take(len0 + 1));
                        }
                    }
                    self.scratch[self.used] = b;
                    self.used = self.used + 1;
                    out.push(b);
                },
            }
        }
    }
}

impl<S> ByteSource for SeqSource<S> where S: SequentialRead {
    closed spec fn wf(&self) -> bool {
        self.src.wf() && self.used <= self.scratch@.len()
    }

    closed spec fn remaining(&self) -> Seq<u8> {
        self.src.remaining()
    }

    closed spec fn exact(&self) -> bool {
        self.src.exact()
    }

    closed spec fn scratch_left(&self) -> Option<nat> {
        Option::Some((self.scratch@.len() - self.used) as nat)
    }

    closed spec fn spec_budget(&self) -> nat {
        self.src.remaining().len()
    }

    fn scratch_free(&self) -> (r: Option<usize>) {
        Some(self.scratch.len() - self.used)
    }

    fn pop(&mut self) -> (r: Result<u8, Error>) {
        match self.src.sequential_read() {
            Ok(b) => Ok(b),
            Err(_) => Err(Error::SourceExhausted),
        }
    }

    fn take_n(&mut self, n: usize) -> (r: Result<Vec<u8>, Error>) {
        self.take_n_inner(n)
    }

    fn take_rest(&mut self) -> (r: Result<Vec<u8>, Error>) {
        self.take_rest_inner()
    }
}

} // verus!
