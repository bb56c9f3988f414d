//! Timing-safe string comparison.
//!
//! The comparison used by the token check must not leak, through its running
//! time, the position of the first differing byte: after the length test it
//! always walks both byte sequences to the end, folding the differences into
//! a single accumulator instead of exiting at the first mismatch.

use vstd::prelude::*;
use vstd::string::StringSliceAdditionalSpecFns;
use vstd::utf8::encode_utf8_decode_utf8;

verus! {

/// Compares two strings in time that depends only on their lengths.
///
/// Returns true exactly when `a` and `b` are equal. If the byte lengths
/// differ the answer is false at once (the length is not treated as a
/// secret); for equal lengths every byte pair is visited regardless of
/// where the first difference lies.
pub fn constant_time_eq(a: &str, b: &str) -> (r: bool)
    ensures
        r == (a@ == b@),
        a.spec_bytes().len() != b.spec_bytes().len() ==> !r,
{
    let ab = a.as_bytes();
    let bb = b.as_bytes();
    if ab.len() != bb.len() {
        proof {
            if a@ == b@ {
                assert(a.spec_bytes() == b.spec_bytes());
            }
        }
        return false;
    }
    let n = ab.len();
    let mut res: u8 = 0;
    let mut i: usize = 0;
    while i < n
        invariant
            ab@ == a.spec_bytes(),
            bb@ == b.spec_bytes(),
            n == ab@.len(),
            n == bb@.len(),
            i <= n,
            (res == 0) <==> (forall|j: int| 0 <= j < i ==> ab@[j] == bb@[j]),
        decreases n - i,
    {
        let x = ab[i];
        let y = bb[i];
        proof {
            assert((res | (x ^ y)) == 0 <==> (res == 0 && x == y)) by (bit_vector);
        }
        res = res | (x ^ y);
        i = i + 1;
    }
    proof {
        if res == 0 {
            assert(a.spec_bytes() =~= b.spec_bytes());
            encode_utf8_decode_utf8(a@);
            encode_utf8_decode_utf8(b@);
            assert(a@ == b@);
        } else {
            if a@ == b@ {
                assert(a.spec_bytes() == b.spec_bytes());
            }
        }
    }
    res == 0
}

} // verus!
