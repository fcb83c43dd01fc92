//! Random session identifiers.

use crate::text::{hex_digit_of, is_lower_hex};
use rand::distributions::{IndependentSample, Range};
use vstd::prelude::*;

verus! {

/// `Range::new(0, 16)` and `IndependentSample::ind_sample` of the `rand`
/// crate, on the generator that its `thread_rng` hands out: a value drawn from
/// `[0, 16)`. Which one is not known; `thread_rng` panics on a machine without
/// a source of entropy.
#[verifier::external_body]
fn random_nibble() -> (n: u8)
    ensures
        n < 16,
{
    Range::new(0u8, 16u8).ind_sample(&mut rand::thread_rng())
}

/// The shape of a session identifier: 32 lowercase hexadecimal digits.
pub open spec fn is_session_id(s: Seq<char>) -> bool {
    &&& s.len() == 32
    &&& forall|i: int| 0 <= i < s.len() ==> is_lower_hex(#[trigger] s[i])
}

/// A fresh identifier of 32 random hexadecimal digits.
pub fn generate_session_id() -> (id: String)
    ensures
        is_session_id(id@),
{
    let mut id = String::new();
    let mut i: usize = 0;
    while i < 32
        invariant
            i <= 32,
            id@.len() == i,
            forall|j: int| 0 <= j < id@.len() ==> is_lower_hex(#[trigger] id@[j]),
        decreases 32 - i,
    {
        let digit = hex_digit_of(random_nibble());
        id.push(digit);
        i += 1;
    }
    id
}

} // verus!
