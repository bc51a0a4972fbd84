//! The few points where the core touches the outside world: the clock, a
//! random id generator and a hash primitive. Each is a thin trusted wrapper
//! around one outside function; everything built on top of them is verified.

use vstd::prelude::*;
use sha2::{Digest, Sha256};

verus! {

/// Upper bound on clamped timestamps; keeps every later addition of a
/// retention window or a token lifetime well inside `i64`.
pub const TIME_MAX: i64 = 0x100_0000_0000;

/// The SHA-256 digest of the UTF-8 bytes of `a` followed by those of `b`.
/// The digest itself is named, not spelled out: nothing but the hash
/// function defines it.
pub uninterp spec fn sha256_pair_digest(a: Seq<char>, b: Seq<char>) -> Seq<u8>;

/// Relies on sha2's `Sha256`: a 32-byte digest that depends only on the
/// bytes fed to the hasher, here the UTF-8 bytes of `a` and then `b`.
#[verifier::external_body]
pub fn sha256_pair(a: &str, b: &str) -> (r: Vec<u8>)
    ensures
        r@ == sha256_pair_digest(a@, b@),
        r@.len() == 32,
{
    let mut hasher = Sha256::new();
    hasher.update(a.as_bytes());
    hasher.update(b.as_bytes());
    hasher.finalize().to_vec()
}

/// Relies on chrono's `Utc::now`: the current time as whole seconds since
/// the Unix epoch. Nothing is promised of the value; callers clamp it.
#[verifier::external_body]
fn system_time_seconds() -> i64 {
    chrono::Utc::now().timestamp()
}

/// The current time in seconds since the epoch, clamped into
/// `[0, TIME_MAX]` so that adding a lifetime or retention window to it
/// cannot overflow. The clamp is the identity for any plausible clock.
pub fn current_time() -> (t: i64)
    ensures
        0 <= t <= TIME_MAX,
{
    let raw = system_time_seconds();
    if raw < 0 {
        0
    } else if raw > TIME_MAX {
        TIME_MAX
    } else {
        raw
    }
}

/// Relies on uuid's `Uuid::new_v4` and its `Display` form: a fresh random
/// id rendered as the 36-character hyphenated form. The value is random;
/// only its length is promised.
#[verifier::external_body]
pub fn fresh_id() -> (r: String)
    ensures
        r@.len() == 36,
{
    uuid::Uuid::new_v4().to_string()
}

} // verus!
