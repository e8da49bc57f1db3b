//! The clock and the node's stored secret key.

use crate::identity::SecretKey;
use std::time::SystemTime;
use vstd::prelude::*;

verus! {

/// Microseconds since the Unix epoch, read from the system clock.
///
/// Trusted: the body calls `SystemTime::now` and `SystemTime::duration_since`.
/// Nothing is promised of the value, since the clock may be set to anything
/// and may go backwards. A clock set before the epoch reads as zero.
#[verifier::external_body]
pub fn get_timestamp() -> (micros: u64) {
    SystemTime::now().duration_since(SystemTime::UNIX_EPOCH).unwrap_or_default().as_micros() as u64
}

/// The secret key of this node: the stored one, or a fresh one when none
/// is stored. The second part of the result says whether the key is fresh
/// and has to be stored.
pub fn get_secret_key(stored: Option<SecretKey>) -> (r: (SecretKey, bool))
    ensures
        match stored {
            Some(key) => r.0@ == key@ && !r.1,
            None => r.1,
        },
{
    match stored {
        Some(key) => (key, false),
        None => (SecretKey::generate(), true),
    }
}

} // verus!
