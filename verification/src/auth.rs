//! The time-bucketed proof of knowing the shared password.

use crate::text::{append_bytes, decimal_bytes, decimal_digits, hex_string, str_equal, to_hex};
use std::time::{Duration, SystemTime};
use vstd::prelude::*;
use vstd::utf8::*;

verus! {

/// The SHA-1 digest of a message, as the `sha1` crate computes it.
pub uninterp spec fn sha1_digest(data: Seq<u8>) -> Seq<u8>;

/// `Sha1::new`, `Sha1::update` and `Sha1::digest` of the `sha1` crate, with
/// `Digest::bytes`: the 20 bytes of the SHA-1 digest of `data`, which depend on
/// `data` alone.
#[verifier::external_body]
fn sha1_of(data: &[u8]) -> (digest: [u8; 20])
    ensures
        digest@ == sha1_digest(data@),
{
    let mut hasher = sha1::Sha1::new();
    hasher.update(data);
    hasher.digest().bytes()
}

/// `SystemTime` of std: a reading of the system clock, which is carried and
/// never looked into.
#[verifier::external_type_specification]
#[verifier::external_body]
pub struct ExSystemTime(SystemTime);

/// `SystemTime::now` of std: the system clock's reading, of which nothing is
/// known beforehand.
pub assume_specification[ SystemTime::now ]() -> (now: SystemTime)
;

/// `Duration::as_secs` of std: the whole seconds of a duration.
pub assume_specification[ Duration::as_secs ](d: &Duration) -> (secs: u64)
;

/// `SystemTime::duration_since` of std, taken from the Unix epoch: the time
/// that has passed since the epoch, or nothing where the clock stands before it.
#[verifier::external_body]
fn since_epoch(t: &SystemTime) -> (elapsed: Option<Duration>) {
    t.duration_since(std::time::UNIX_EPOCH).ok()
}

/// The system clock in whole seconds since the Unix epoch. A clock that stands
/// before the epoch reads as second 0.
pub fn unix_time() -> u64 {
    let now = SystemTime::now();
    match since_epoch(&now) {
        Some(elapsed) => elapsed.as_secs(),
        None => 0,
    }
}

/// The bytes that are hashed for a password and a second: the password, the
/// second in decimal, the password again.
pub open spec fn proof_message(password: Seq<char>, time: u64) -> Seq<u8> {
    encode_utf8(password) + decimal_digits(time as nat) + encode_utf8(password)
}

/// The proof token of a password for a second: the digest of the message in
/// lowercase hexadecimal.
pub open spec fn proof_token(password: Seq<char>, time: u64) -> Seq<char> {
    hex_string(sha1_digest(proof_message(password, time)))
}

/// Whether `t` lies in the window of `window` seconds around `now`: at most
/// `window` seconds back, less than `window` seconds ahead.
pub open spec fn in_window(now: u64, window: u64, t: u64) -> bool {
    now - window <= t < now + window
}

/// Whether `candidate` is the proof token of `password` for some second in the
/// window around `now`.
pub open spec fn proof_accepted(
    password: Seq<char>,
    candidate: Seq<char>,
    window: u64,
    now: u64,
) -> bool {
    exists|t: u64| in_window(now, window, t) && #[trigger] proof_token(password, t) == candidate
}

/// The proof token of `password` for the second `time`.
pub fn proof_for_time(password: &str, time: u64) -> (token: String)
    ensures
        token@ == proof_token(password@, time),
        token@.len() == 40,
{
    let mut message: Vec<u8> = Vec::new();
    append_bytes(&mut message, password.as_bytes());
    let digits = decimal_bytes(time);
    append_bytes(&mut message, digits.as_slice());
    append_bytes(&mut message, password.as_bytes());
    assert(message@ =~= proof_message(password@, time));
    let digest = sha1_of(message.as_slice());
    to_hex(digest.as_slice())
}

/// The proof token of `password` for the present second.
pub fn current_proof(password: &str) -> (token: String)
    ensures
        exists|t: u64| token@ == #[trigger] proof_token(password@, t),
{
    let now = unix_time();
    proof_for_time(password, now)
}

/// Whether `proof` is a token of `password` for a second in the window of
/// `allowed_diff` seconds around the second `now`.
pub fn check_proof_at(password: &str, proof: &str, allowed_diff: u64, now: u64) -> (ok: bool)
    ensures
        ok == proof_accepted(password@, proof@, allowed_diff, now),
{
    let first: u64 = if now >= allowed_diff {
        now - allowed_diff
    } else {
        0
    };
    let end: u128 = now as u128 + allowed_diff as u128;
    let mut t: u128 = first as u128;
    while t < end && t <= u64::MAX as u128
        invariant
            first <= t,
            first == (if now >= allowed_diff {
                now - allowed_diff
            } else {
                0
            }),
            end == now + allowed_diff,
            forall|u: u64| first <= u < t ==> #[trigger] proof_token(password@, u) != proof@,
        decreases end - t,
    {
        let token = proof_for_time(password, t as u64);
        if str_equal(token.as_str(), proof) {
            assert(in_window(now, allowed_diff, t as u64));
            return true;
        }
        t += 1;
    }
    assert forall|u: u64| in_window(now, allowed_diff, u) implies #[trigger] proof_token(
        password@,
        u,
    ) != proof@ by {
        assert(first <= u < t);
    }
    false
}

/// Whether `proof` is a token of `password` for a second in the window of
/// `allowed_diff` seconds around the present second.
pub fn check_proof(password: &str, proof: &str, allowed_diff: u64) -> (ok: bool)
    ensures
        exists|now: u64| ok == #[trigger] proof_accepted(password@, proof@, allowed_diff, now),
{
    let now = unix_time();
    let ok = check_proof_at(password, proof, allowed_diff, now);
    assert(ok == proof_accepted(password@, proof@, allowed_diff, now));
    ok
}

/// A token made for a second less than `window` seconds away from `now` is
/// accepted at `now`.
pub proof fn lemma_recent_proof_accepted(password: Seq<char>, t: u64, now: u64, window: u64)
    requires
        now - window < t < now + window,
    ensures
        proof_accepted(password, proof_token(password, t), window, now),
{
    assert(in_window(now, window, t));
}

} // verus!
