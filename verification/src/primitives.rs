//! Hashing primitives: SHA-512 to a scalar, and HKDF-SHA512 nonces.
use vstd::prelude::*;
use crate::consts::{VRF_NONCE_INFO, VRF_PREFIX_NONCE};
use crate::group::{
    bytes_to_nat, group_order, lemma_le_bytes_of_bytes_to_nat, scalar_bytes, GroupScalar,
};

verus! {

/// The SHA-512 digest of a byte string.
pub uninterp spec fn sha512_digest(data: Seq<u8>) -> Seq<u8>;

/// The first 64 bytes of HKDF-SHA512 output keying material for a salt, an input key
/// and an info string.
pub uninterp spec fn hkdf_sha512_okm(salt: Seq<u8>, ikm: Seq<u8>, info: Seq<u8>) -> Seq<u8>;

#[verifier::external_type_specification]
#[verifier::external_body]
pub struct ExHkdfInvalidLength(hkdf::InvalidLength);

/// `sha2::Sha512::digest`: the 64-byte SHA-512 digest of `data`.
#[verifier::external_body]
fn sha512(data: &[u8]) -> (res: [u8; 64])
    ensures
        res@ == sha512_digest(data@),
{
    let mut out = [0u8; 64];
    out.copy_from_slice(&<sha2::Sha512 as sha2::Digest>::digest(data));
    out
}

/// `hkdf::Hkdf::<Sha512>::new(Some(salt), ikm)` followed by `expand(info, okm)` into a
/// 64-byte `okm`. `expand` fails only when `okm` is longer than 255 blocks of the hash
/// output, so for 64 bytes it succeeds.
#[verifier::external_body]
fn hkdf_sha512_expand(salt: &[u8], ikm: &[u8], info: &[u8]) -> (res: Result<[u8; 64], hkdf::InvalidLength>)
    ensures
        res is Ok,
        res matches Ok(okm) ==> okm@ == hkdf_sha512_okm(salt@, ikm@, info@),
{
    let mut okm = [0u8; 64];
    match hkdf::Hkdf::<sha2::Sha512>::new(Some(salt), ikm).expand(info, &mut okm) {
        Ok(()) => Ok(okm),
        Err(e) => Err(e),
    }
}

/// The scalar that the SHA-512 digest of `input`, read as a little-endian integer,
/// is congruent to.
pub open spec fn spec_hash_to_scalar(input: Seq<u8>) -> nat {
    bytes_to_nat(sha512_digest(input)) % group_order()
}

/// The HKDF-SHA512 nonce for a secret scalar and an input: the first 32 bytes of the
/// output keying material for `sk || input`, reduced modulo ℓ.
pub open spec fn spec_hkdf_nonce(sk: nat, input: Seq<u8>) -> nat {
    bytes_to_nat(
        hkdf_sha512_okm(VRF_PREFIX_NONCE@, scalar_bytes(sk) + input, VRF_NONCE_INFO@).subrange(0, 32),
    ) % group_order()
}

/// Hashes `input` with SHA-512 and reduces the 512-bit digest modulo ℓ.
pub fn hash_to_scalar(input: &[u8]) -> (res: GroupScalar)
    ensures
        res@ == spec_hash_to_scalar(input@),
{
    let digest = sha512(input);
    GroupScalar::from_bytes_mod_order_wide(&digest)
}

/// Derives a deterministic nonce scalar via HKDF(sk || input), as VRF and OPRF proof
/// generation both do.
pub fn hkdf_nonce(sk: &GroupScalar, input: &[u8]) -> (res: GroupScalar)
    ensures
        res@ == spec_hkdf_nonce(sk@, input@),
{
    let sk_bytes = sk.to_bytes();
    let mut ikm: Vec<u8> = Vec::new();
    ikm.extend_from_slice(sk_bytes.as_slice());
    ikm.extend_from_slice(input);
    assert(ikm@ =~= scalar_bytes(sk@) + input@);
    let okm = match hkdf_sha512_expand(VRF_PREFIX_NONCE.as_slice(), ikm.as_slice(), VRF_NONCE_INFO.as_slice()) {
        Ok(okm) => okm,
        Err(_) => vstd::pervasive::unreached(),
    };
    nonce_from_okm(&okm)
}

/// The nonce scalar that HKDF output keying material gives: its first 32 bytes, read
/// as a little-endian integer, reduced modulo ℓ.
pub fn nonce_from_okm(okm: &[u8; 64]) -> (res: GroupScalar)
    ensures
        res@ == bytes_to_nat(okm@.subrange(0, 32)) % group_order(),
{
    let mut low = [0u8; 32];
    for i in 0..32
        invariant
            okm@.len() == 64,
            low@.len() == 32,
            forall|j: int| 0 <= j < i ==> low@[j] == okm@[j],
    {
        low[i] = okm[i];
    }
    assert(low@ =~= okm@.subrange(0, 32));
    GroupScalar::from_bytes_mod_order(low)
}

/// The scalar that `hash_to_scalar` gives is the SHA-512 digest of all of its input,
/// read as a little-endian integer and reduced modulo ℓ, for inputs of every length.
pub proof fn law_hash_to_scalar_hashes_whole_input(x: Seq<u8>)
    ensures
        spec_hash_to_scalar(x) == bytes_to_nat(sha512_digest(x)) % group_order(),
{
}

/// The nonce is keyed on the whole secret: for any input key material made of 32 bytes
/// that encode `sk` (little-endian) followed by the input, the nonce is the first 32
/// bytes of HKDF-SHA512 over that key material, reduced modulo ℓ.
pub proof fn law_hkdf_nonce_keys_on_full_secret(sk: nat, input: Seq<u8>, ikm: Seq<u8>)
    requires
        ikm.len() == 32 + input.len(),
        bytes_to_nat(ikm.subrange(0, 32)) == sk,
        ikm.subrange(32, ikm.len() as int) == input,
    ensures
        spec_hkdf_nonce(sk, input) == bytes_to_nat(
            hkdf_sha512_okm(VRF_PREFIX_NONCE@, ikm, VRF_NONCE_INFO@).subrange(0, 32),
        ) % group_order(),
{
    lemma_le_bytes_of_bytes_to_nat(ikm.subrange(0, 32));
    assert(ikm =~= scalar_bytes(sk) + input);
}

} // verus!
