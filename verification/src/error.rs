//! Error kinds shared by the encoder, the framing layer and the decoder.

use vstd::prelude::*;

verus! {

/// Everything that can go wrong while encoding or decoding a record.
///
/// A malformed or truncated record is never partially accepted: every
/// operation either completes or reports exactly one of these kinds.
#[derive(Debug, Clone, Copy, PartialEq, Eq, Structural)]
pub enum Error {
    /// The byte source ended before a field, the header, or a requested
    /// span was complete.
    SourceExhausted,
    /// The caller-supplied scratch buffer cannot hold a requested span;
    /// decoding aborts rather than growing the buffer.
    BufferTooSmall,
    /// An optional-field flag or an enum tag byte lies outside the defined
    /// set of values.
    InvalidDiscriminant,
    /// A decoded value failed secondary validation, such as string data
    /// that is not valid UTF-8 or an integer too large for its field.
    MalformedValue,
    /// A deferred-decode continuation was requested from a byte source
    /// that cannot produce one.
    NotResumable,
}

/// Error returned by a caller-supplied byte-fetch procedure.
#[derive(Debug, Clone, Copy, PartialEq, Eq, Structural)]
pub struct SequentialReadError;

} // verus!
