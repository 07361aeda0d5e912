//! Small string helpers: equality of string slices at the character level,
//! and construction of owned strings from decoded bytes.

use vstd::prelude::*;
use vstd::utf8::decode_utf8;
use vstd::utf8::encode_utf8;
use vstd::utf8::encode_utf8_decode_utf8;
use vstd::utf8::valid_utf8;
use vstd::string::StringSliceAdditionalSpecFns;

verus! {

/// Relies on `String::from_utf8`: it succeeds exactly when the bytes are
/// valid UTF-8, and the resulting string then contains those very bytes.
#[verifier::external_body]
pub(crate) fn string_from_utf8(v: Vec<u8>) -> (r: Option<String>)
    ensures
        r is Some <==> valid_utf8(v@),
        r is Some ==> encode_utf8(r->0@) == v@,
{
    match String::from_utf8(v) {
        Ok(s) => Some(s),
        Err(_) => None,
    }
}

/// Relies on `String::push_str`: it appends the slice's characters to the
/// string.
#[verifier::external_body]
pub(crate) fn push_str(s: &mut String, t: &str)
    ensures
        final(s)@ == old(s)@ + t@,
{
    s.push_str(t)
}

/// Character-for-character equality of two string slices, decided by
/// comparing their UTF-8 bytes.
pub(crate) fn str_eq(a: &str, b: &str) -> (r: bool)
    ensures
        r == (a@ == b@),
{
    proof {
        encode_utf8_decode_utf8(a@);
        encode_utf8_decode_utf8(b@);
    }
    let ab = a.as_bytes();
    let bb = b.as_bytes();
    if ab.len() != bb.len() {
        return false;
    }
    let n = ab.len();
    let mut i: usize = 0;
    while i < n
        invariant
            n == ab@.len() == bb@.len(),
            i <= n,
            ab@.subrange(0, i as int) == bb@.subrange(0, i as int),
            ab@ == a.spec_bytes(),
            bb@ == b.spec_bytes(),
            decode_utf8(a.spec_bytes()) == a@,
            decode_utf8(b.spec_bytes()) == b@,
        decreases n - i,
    {
        if ab[i] != bb[i] {
            proof {
                assert(ab@[i as int] != bb@[i as int]);
            }
            return false;
        }
        proof {
            assert(ab@.subrange(0, i + 1) =~= ab@.subrange(0, i as int).push(ab@[i as int]));
            assert(bb@.subrange(0, i + 1) =~= bb@.subrange(0, i as int).push(bb@[i as int]));
        }
        i += 1;
    }
    proof {
        assert(ab@ =~= ab@.subrange(0, n as int));
        assert(bb@ =~= bb@.subrange(0, n as int));
    }
    true
}

} // verus!
