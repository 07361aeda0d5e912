//! An address-space-aware handle on an embedded record.
//!
//! On targets where the record lives in a separate address space or behind a
//! serial peripheral, it cannot be read as an ordinary slice: all the
//! program has is a range of abstract addresses and some platform-specific
//! way to fetch the byte at one of them. [`InfoMemPtr`] carries that range;
//! pairing it with a fetch procedure yields a sequential reader the decoder
//! can run on.

use vstd::prelude::*;
use crate::error::SequentialReadError;
use crate::source::FetchSource;
use crate::source::SequentialRead;
use crate::source::fetch_agrees;

verus! {

/// An abstract pointer to an embedded record: the range of addresses it
/// occupies, in whatever address space the target keeps it.
#[derive(Debug, Clone, Copy, PartialEq, Eq, Structural)]
pub struct InfoMemPtr {
    start: usize,
    end: usize,
}

impl InfoMemPtr {
    /// A handle on the addresses `start..end`.
    pub fn new(start: usize, end: usize) -> (r: Self)
        requires
            start <= end,
        ensures
            r.start() == start,
            r.end() == end,
    {
        InfoMemPtr { start, end }
    }

    /// First address of the record.
    pub closed spec fn start(&self) -> usize {
        self.start
    }

    /// First address past the record.
    pub closed spec fn end(&self) -> usize {
        self.end
    }

    /// First address of the record.
    pub fn first(&self) -> (r: usize)
        ensures
            r == self.start(),
    {
        self.start
    }

    /// First address past the record.
    pub fn past(&self) -> (r: usize)
        ensures
            r == self.end(),
    {
        self.end
    }

    /// Read the record's addresses through `f`, one byte per call: the shape
    /// to use when the record is not in the current address space. Nothing
    /// is assumed about what `f` yields.
    pub fn sequential_read<F>(self, f: F) -> (r: FetchSource<F>) where F: Fn(usize) -> Result<
        u8,
        SequentialReadError,
    >
        requires
            self.start() <= self.end(),
            forall|a: usize| #[trigger] call_requires(f, (a,)),
        ensures
            r.wf(),
            r.remaining().len() == self.end() - self.start(),
            r.spec_position() == self.start(),
    {
        FetchSource::new(self.start, self.end, f)
    }

    /// Read the record's addresses through `f`, which is known to yield
    /// exactly the bytes of `data`: the resulting reader is exact, so
    /// everything the decoder's contracts promise of exact sources holds of
    /// it.
    pub fn sequential_read_checked<F>(self, f: F, data: Ghost<Seq<u8>>) -> (r: FetchSource<
        F,
    >) where F: Fn(usize) -> Result<u8, SequentialReadError>
        requires
            self.start() <= self.end(),
            data@.len() == self.end() - self.start(),
            forall|a: usize| #[trigger] call_requires(f, (a,)),
            fetch_agrees(&f, self.start() as nat, data@),
        ensures
            r.wf(),
            r.exact(),
            r.remaining() == data@,
            r.spec_position() == self.start(),
    {
        FetchSource::new_checked(self.start, self.end, f, data)
    }
}

} // verus!
