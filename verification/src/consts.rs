//! Domain separators for the nonce derivation and the DLEQ challenge.
use vstd::prelude::*;

verus! {

/// HKDF salt for deterministic nonces: the bytes of `"VRF-Ephem-Nonce"`.
pub const VRF_PREFIX_NONCE: [u8; 15] = [
    86, 82, 70, 45, 69, 112, 104, 101, 109, 45, 78, 111, 110, 99, 101,
];

/// HKDF info string for deterministic nonces: the bytes of `"VRF-Nonce"`.
pub const VRF_NONCE_INFO: [u8; 9] = [86, 82, 70, 45, 78, 111, 110, 99, 101];

/// Prefix of the hashed OPRF DLEQ challenge: the bytes of `"OPRF-Ephem-Challenge"`.
pub const OPRF_PREFIX_CHALLENGE: [u8; 20] = [
    79, 80, 82, 70, 45, 69, 112, 104, 101, 109, 45, 67, 104, 97, 108, 108, 101, 110, 103, 101,
];

} // verus!
