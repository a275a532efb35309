//! Buffer handling for the hostname query: the returned name may be
//! truncated and then lacks its trailing NUL, so the buffer is capped at
//! the first NUL byte, or kept whole when none occurs.
use vstd::prelude::*;

verus! {

/// The buffer up to (excluding) its first NUL byte, or the whole buffer
/// when no NUL occurs.
pub open spec fn wrap_buffer_spec(bytes: Seq<u8>) -> Seq<u8> {
    match bytes.index_of_first(0u8) {
        Some(i) => bytes.subrange(0, i),
        None => bytes,
    }
}

/// Cap a hostname buffer at its first NUL byte.
pub fn wrap_buffer(bytes: Vec<u8>) -> (r: Vec<u8>)
    ensures
        r@ == wrap_buffer_spec(bytes@),
{
    let mut out = bytes;
    let mut i: usize = 0;
    while i < out.len()
        invariant
            out@ == bytes@,
            0 <= i <= out@.len(),
            forall|j: int| 0 <= j < i ==> out@[j] != 0u8,
        decreases out@.len() - i,
    {
        if out[i] == 0u8 {
            proof {
                out@.index_of_first_ensures(0u8);
                assert(out@.contains(0u8)) by {
                    assert(out@[i as int] == 0u8);
                }
            }
            out.truncate(i);
            return out;
        }
        i = i + 1;
    }
    proof {
        out@.index_of_first_ensures(0u8);
        if out@.contains(0u8) {
            let w = choose|k: int| 0 <= k < out@.len() && out@[k] == 0u8;
            assert(out@[w] == 0u8);
        }
    }
    out
}

} // verus!
