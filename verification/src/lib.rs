//! One-shot secret-unsealing gateway library.
//!
//! The crate models an unsealing service: an authenticated-encryption
//! envelope codec, a sealed-to-unsealed gateway state machine, an
//! admission-control layer (body size cap and token-bucket rate limit),
//! a flat-JSON-object-to-environment converter, and the retry state
//! machine of the post-unseal process supervisor.

use vstd::prelude::*;

pub mod admission;
pub mod base64key;
pub mod codec;
pub mod envmap;
pub mod gateway;
pub mod supervisor;

verus! {

/// Build identifier reported by the liveness probe.
pub fn get_version() -> (r: &'static str)
    ensures
        r@ == "No Version"@,
{
    "No Version"
}

} // verus!

