//! The oblivious PRF: the oracle's evaluation `Z = sk·T` of a blinded point `T` with a
//! DLEQ proof that `log_T(Z) = log_B(pk)`, its verification, and the client's unblinding.
use vstd::prelude::*;
use vstd::arithmetic::div_mod::{
    lemma_add_mod_noop, lemma_mod_bound, lemma_mod_twice, lemma_mul_mod_noop_left,
    lemma_mul_mod_noop_right, lemma_small_mod,
};
use vstd::arithmetic::mul::{
    lemma_mul_is_associative, lemma_mul_is_commutative, lemma_mul_is_distributive_add,
};
use crate::bytes::append_bytes;
use crate::consts::OPRF_PREFIX_CHALLENGE;
use crate::group::{
    bytes_to_nat, decoded, group_order, lemma_scalar_reduced, ristretto_encoding,
    scalar_inverse, zero_bytes32, GroupScalar, Point,
};
use crate::primitives::{
    hash_to_scalar, hkdf_nonce, sha512_digest, spec_hash_to_scalar, spec_hkdf_nonce,
};

verus! {

/// A DLEQ proof that the OPRF output and the oracle's public key have the same
/// discrete logarithm to the blinded point and to the basepoint.
#[derive(Clone, Copy)]
pub struct DleqProof {
    /// `k·T` commitment (oracle nonce times blinded input point), compressed.
    pub r1: [u8; 32],
    /// `k·B` commitment (oracle nonce times base point), compressed.
    pub r2: [u8; 32],
    /// `s = k + c·sk` (Fiat-Shamir response).
    pub s: GroupScalar,
}

/// The bytes hashed into the challenge: the domain separator, then `T`, `pk`, `Z`,
/// `R1` and `R2`, each as its 32-byte encoding.
pub open spec fn challenge_bytes(
    blinded: Seq<u8>,
    pk: Seq<u8>,
    output: Seq<u8>,
    r1: Seq<u8>,
    r2: Seq<u8>,
) -> Seq<u8> {
    OPRF_PREFIX_CHALLENGE@ + blinded + pk + output + r1 + r2
}

/// The Fiat-Shamir challenge scalar `c`.
pub open spec fn challenge_scalar(
    blinded: Seq<u8>,
    pk: Seq<u8>,
    output: Seq<u8>,
    r1: Seq<u8>,
    r2: Seq<u8>,
) -> nat {
    spec_hash_to_scalar(challenge_bytes(blinded, pk, output, r1, r2))
}

/// What the oracle answers for secret scalar `sk`, public key `pk` (both by their
/// values) and the bytes of a blinded point: `None` when the bytes are not the encoding
/// of a point or encode the identity; otherwise the encodings of `Z = sk·T`,
/// `R1 = k·T` and `R2 = k·B`, and `s = k + c·sk`, where `k` is the HKDF nonce of `sk` and
/// the blinded bytes and `c` the challenge over `T, pk, Z, R1, R2`.
pub open spec fn oprf_evaluation(sk: nat, pk: nat, blinded: Seq<u8>) -> Option<
    (Seq<u8>, Seq<u8>, Seq<u8>, nat),
> {
    match decoded(blinded) {
        None => None,
        Some(t) => {
            if t == 0 {
                None
            } else {
                let k = spec_hkdf_nonce(sk, blinded);
                let output = ristretto_encoding((sk * t) % group_order());
                let r1 = ristretto_encoding((k * t) % group_order());
                let r2 = ristretto_encoding(k);
                let c = challenge_scalar(blinded, ristretto_encoding(pk), output, r1, r2);
                Some((output, r1, r2, (k + c * sk) % group_order()))
            }
        },
    }
}

/// The points that an answer transmits decode back to `Z = sk·T`, `R1 = k·T` and
/// `R2 = k·B`.
pub open spec fn oprf_answer_decodes(
    sk: nat,
    blinded: Seq<u8>,
    output: Seq<u8>,
    r1: Seq<u8>,
    r2: Seq<u8>,
) -> bool {
    match decoded(blinded) {
        None => false,
        Some(t) => {
            let k = spec_hkdf_nonce(sk, blinded);
            &&& decoded(output) == Some((sk * t) % group_order())
            &&& decoded(r1) == Some((k * t) % group_order())
            &&& decoded(r2) == Some(k)
        },
    }
}

/// `(output, r1, r2, s)` is the oracle's answer for `sk`, `pk` and the blinded bytes.
pub open spec fn is_oprf_answer(
    sk: nat,
    pk: nat,
    blinded: Seq<u8>,
    output: Seq<u8>,
    r1: Seq<u8>,
    r2: Seq<u8>,
    s: nat,
) -> bool {
    &&& oprf_evaluation(sk, pk, blinded) == Some((output, r1, r2, s))
    &&& oprf_answer_decodes(sk, blinded, output, r1, r2)
}

/// Whether a DLEQ proof verifies for public key `pk` (by its value): every transmitted
/// encoding decodes, the blinded point is not the identity, and with `c` the challenge
/// over `T, pk, Z, R1, R2`, both `s·T == R1 + c·Z` and `s·B == R2 + c·pk`.
pub open spec fn dleq_verifies(
    pk: nat,
    blinded: Seq<u8>,
    output: Seq<u8>,
    r1: Seq<u8>,
    r2: Seq<u8>,
    s: nat,
) -> bool {
    match (decoded(blinded), decoded(output), decoded(r1), decoded(r2)) {
        (Some(t), Some(z), Some(a), Some(b)) => {
            let c = challenge_scalar(blinded, ristretto_encoding(pk), output, r1, r2);
            &&& t != 0
            &&& (s * t) % group_order() == (a + c * z) % group_order()
            &&& s % group_order() == (b + c * pk) % group_order()
        },
        _ => false,
    }
}

/// `unblinded` is what unblinding `output` with `r` gives: the encoding of
/// `r⁻¹·Z`, where `r⁻¹` is the inverse that `Scalar::invert` computes, which for a
/// nonzero `r` satisfies `r·r⁻¹ = 1`.
pub open spec fn is_unblinding(output: Seq<u8>, r: nat, unblinded: Seq<u8>) -> bool {
    match decoded(output) {
        None => false,
        Some(z) => {
            let w = (scalar_inverse(r) * z) % group_order();
            &&& unblinded == ristretto_encoding(w)
            &&& decoded(unblinded) == Some(w)
            &&& r != 0 ==> (r * scalar_inverse(r)) % group_order() == 1
        },
    }
}

/// The challenge bytes `prefix || T || pk || Z || R1 || R2`.
fn build_challenge(
    blinded: &[u8; 32],
    pk: &[u8; 32],
    output: &[u8; 32],
    r1: &[u8; 32],
    r2: &[u8; 32],
) -> (res: Vec<u8>)
    ensures
        res@ == challenge_bytes(blinded@, pk@, output@, r1@, r2@),
{
    let mut buf: Vec<u8> = Vec::new();
    append_bytes(&mut buf, OPRF_PREFIX_CHALLENGE.as_slice());
    append_bytes(&mut buf, blinded.as_slice());
    append_bytes(&mut buf, pk.as_slice());
    append_bytes(&mut buf, output.as_slice());
    append_bytes(&mut buf, r1.as_slice());
    append_bytes(&mut buf, r2.as_slice());
    assert(buf@ =~= challenge_bytes(blinded@, pk@, output@, r1@, r2@));
    buf
}

/// Compute OPRF output and DLEQ proof.
///
/// `sk`: oracle secret scalar;
/// `pk`: oracle public key (`sk·B`), passed in to avoid recomputing;
/// `blinded_point_bytes`: client-provided `T = r·H(seed)` (compressed Ristretto).
///
/// Returns `(Z = sk·T, DleqProof)`, or `None` if the blinded point is not a valid
/// encoding or is the identity (which would produce a predictable output).
pub fn compute_oprf(sk: GroupScalar, pk: Point, blinded_point_bytes: &[u8; 32]) -> (res: Option<
    ([u8; 32], DleqProof),
>)
    ensures
        res is None <==> oprf_evaluation(sk@, pk@, blinded_point_bytes@) is None,
        blinded_point_bytes@ == zero_bytes32() ==> res is None,
        res matches Some((output, proof)) ==> is_oprf_answer(
            sk@,
            pk@,
            blinded_point_bytes@,
            output@,
            proof.r1@,
            proof.r2@,
            proof.s@,
        ),
{
    let t = match Point::decompress(blinded_point_bytes) {
        Some(p) => p,
        None => return None,
    };
    // Reject the identity point (it would produce a predictable output).
    if t.equals(&Point::identity()) {
        return None;
    }
    let z = t.mul(&sk);
    // Deterministic nonce via HKDF: it needs no OS randomness, and a repeated nonce
    // cannot leak the key.
    let k = hkdf_nonce(&sk, blinded_point_bytes.as_slice());
    let r1 = t.mul(&k);
    let r2 = Point::mul_base(&k);

    let pk_bytes = pk.compress();
    let z_bytes = z.compress();
    let r1_bytes = r1.compress();
    let r2_bytes = r2.compress();
    let challenge_input = build_challenge(blinded_point_bytes, &pk_bytes, &z_bytes, &r1_bytes, &r2_bytes);
    let c = hash_to_scalar(challenge_input.as_slice());

    let s = dleq_response(&k, &c, &sk);
    Some((z_bytes, DleqProof { r1: r1_bytes, r2: r2_bytes, s }))
}

/// The Fiat-Shamir response `s = k + c·sk` of the DLEQ proof for nonce `k`, challenge
/// `c` and secret `sk`.
pub fn dleq_response(k: &GroupScalar, c: &GroupScalar, sk: &GroupScalar) -> (res: GroupScalar)
    ensures
        res@ == (k@ + c@ * sk@) % group_order(),
{
    let s = k.add(&c.mul(sk));
    proof {
        lemma_add_mod_absorb(k@ as int, (c@ * sk@) as int, group_order() as int);
    }
    s
}

/// Verify a DLEQ proof off-chain, as the on-chain verifier does.
pub fn verify_dleq(pk: Point, blinded_point_bytes: &[u8; 32], output_bytes: &[u8; 32], proof: &DleqProof) -> (res: bool)
    ensures
        res == dleq_verifies(
            pk@,
            blinded_point_bytes@,
            output_bytes@,
            proof.r1@,
            proof.r2@,
            proof.s@,
        ),
        blinded_point_bytes@ == zero_bytes32() ==> !res,
{
    let t = match Point::decompress(blinded_point_bytes) {
        Some(p) => p,
        None => return false,
    };
    if t.equals(&Point::identity()) {
        return false;
    }
    let z = match Point::decompress(output_bytes) {
        Some(p) => p,
        None => return false,
    };
    let r1 = match Point::decompress(&proof.r1) {
        Some(p) => p,
        None => return false,
    };
    let r2 = match Point::decompress(&proof.r2) {
        Some(p) => p,
        None => return false,
    };

    let pk_bytes = pk.compress();
    let challenge_input = build_challenge(blinded_point_bytes, &pk_bytes, output_bytes, &proof.r1, &proof.r2);
    let c = hash_to_scalar(challenge_input.as_slice());

    // Verify: s·T == R1 + c·Z  and  s·B == R2 + c·pk.
    let lhs_t = t.mul(&proof.s);
    let rhs_t = r1.add(&z.mul(&c));
    let lhs_g = Point::mul_base(&proof.s);
    let rhs_g = r2.add(&pk.mul(&c));
    proof {
        lemma_add_mod_absorb(r1@ as int, (c@ * z@) as int, group_order() as int);
        lemma_add_mod_absorb(r2@ as int, (c@ * pk@) as int, group_order() as int);
        lemma_scalar_reduced(proof.s);
        lemma_small_mod(proof.s@, group_order());
    }
    lhs_t.equals(&rhs_t) && lhs_g.equals(&rhs_g)
}

/// Unblind the OPRF output on the client side: `(1/r)·Z`, which is `sk·H(seed)` when
/// `Z = sk·(r·H(seed))`. `None` when the output bytes are not the encoding of a point.
pub fn unblind_oprf(output_bytes: &[u8; 32], r: GroupScalar) -> (res: Option<[u8; 32]>)
    ensures
        res is None <==> decoded(output_bytes@) is None,
        res matches Some(unblinded) ==> is_unblinding(output_bytes@, r@, unblinded@),
{
    let z = match Point::decompress(output_bytes) {
        Some(p) => p,
        None => return None,
    };
    let r_inv = r.invert();
    Some(z.mul(&r_inv).compress())
}

/// `((x % m) + y) % m == (x + y) % m` and `(x + (y % m)) % m == (x + y) % m`.
proof fn lemma_add_mod_absorb(x: int, y: int, m: int)
    requires
        m > 0,
    ensures
        ((x % m) + y) % m == (x + y) % m,
        (x + (y % m)) % m == (x + y) % m,
{
    lemma_add_mod_noop(x, y, m);
    lemma_add_mod_noop(x % m, y, m);
    lemma_add_mod_noop(x, y % m, m);
    lemma_mod_twice(x, m);
    lemma_mod_twice(y, m);
}

/// Completeness of the DLEQ proof: whatever the oracle answers for a secret scalar `sk`
/// and any blinded point, `verify_dleq` accepts under the public key `sk·B`.
pub proof fn law_dleq_completeness(
    sk: nat,
    blinded: Seq<u8>,
    output: Seq<u8>,
    r1: Seq<u8>,
    r2: Seq<u8>,
    s: nat,
)
    requires
        sk < group_order(),
        is_oprf_answer(sk, sk, blinded, output, r1, r2, s),
    ensures
        dleq_verifies(sk, blinded, output, r1, r2, s),
{
    let l = group_order() as int;
    let t = decoded(blinded)->0 as int;
    let k = spec_hkdf_nonce(sk, blinded) as int;
    let c = challenge_scalar(blinded, ristretto_encoding(sk), output, r1, r2) as int;
    let x = sk as int;
    let a = (k * t) % l;
    let z = (x * t) % l;
    assert(s == (k + c * x) % l);
    // s·t ≡ (k + c·sk)·t = k·t + c·(sk·t) ≡ a + c·z  (mod ℓ)
    lemma_mul_mod_noop_left(k + c * x, t, l);
    lemma_mul_is_distributive_add(t, k, c * x);
    lemma_mul_is_commutative(t, k);
    lemma_mul_is_commutative(t, c * x);
    lemma_mul_is_associative(c, x, t);
    assert((s * t) % l == (k * t + c * (x * t)) % l);
    lemma_mul_mod_noop_right(c, x * t, l);
    lemma_add_mod_absorb(k * t, c * (x * t), l);
    lemma_add_mod_absorb(k * t, c * z, l);
    assert((a + c * z) % l == (k * t + c * (x * t)) % l);
    // s ≡ k + c·sk  (mod ℓ), with R2 = k·B and pk = sk·B
    lemma_mod_bound(k + c * x, l);
    lemma_small_mod(s, group_order());
}

/// Unblinding: when the blinded point is `T = r·H` for a nonzero blinding scalar `r`,
/// unblinding the oracle's output with `r` gives the encoding of `sk·H`, whatever
/// `r` was.
pub proof fn law_unblinding_recovers_evaluation(
    sk: nat,
    pk: nat,
    h: nat,
    r: nat,
    blinded: Seq<u8>,
    output: Seq<u8>,
    r1: Seq<u8>,
    r2: Seq<u8>,
    s: nat,
    unblinded: Seq<u8>,
)
    requires
        sk < group_order(),
        h < group_order(),
        0 < r < group_order(),
        decoded(blinded) == Some((r * h) % group_order()),
        is_oprf_answer(sk, pk, blinded, output, r1, r2, s),
        is_unblinding(output, r, unblinded),
    ensures
        unblinded == ristretto_encoding((sk * h) % group_order()),
{
    let l = group_order() as int;
    let inv = scalar_inverse(r) as int;
    let x = sk as int;
    let ri = r as int;
    let hi = h as int;
    let z = (x * ((ri * hi) % l)) % l;
    assert(decoded(output) == Some(z as nat));
    // z ≡ sk·(r·h)
    lemma_mul_mod_noop_right(x, ri * hi, l);
    // r⁻¹·z ≡ r⁻¹·(sk·(r·h)) = (r·r⁻¹)·(sk·h) ≡ sk·h
    lemma_mul_mod_noop_right(inv, x * (ri * hi), l);
    assert(inv * (x * (ri * hi)) == (ri * inv) * (x * hi)) by (nonlinear_arith);
    lemma_mul_mod_noop_left(ri * inv, x * hi, l);
    assert((ri * inv) % l == 1);
}

/// The oracle is deterministic: for the same secret, public key and blinded point it
/// gives the same answer every time.
pub proof fn law_oprf_deterministic(
    sk: nat,
    pk: nat,
    blinded: Seq<u8>,
    output1: Seq<u8>,
    r1_1: Seq<u8>,
    r2_1: Seq<u8>,
    s1: nat,
    output2: Seq<u8>,
    r1_2: Seq<u8>,
    r2_2: Seq<u8>,
    s2: nat,
)
    requires
        is_oprf_answer(sk, pk, blinded, output1, r1_1, r2_1, s1),
        is_oprf_answer(sk, pk, blinded, output2, r1_2, r2_2, s2),
    ensures
        output1 == output2,
        r1_1 == r1_2,
        r2_1 == r2_2,
        s1 == s2,
{
}

/// What an accepted proof satisfies: `verify_dleq` accepts exactly when `T`, `Z`, `R1`
/// and `R2` decode, `T` is not the identity, and with `c` the SHA-512 of the whole
/// transcript `prefix || T || pk || Z || R1 || R2` reduced modulo ℓ, both
/// `s·T == R1 + c·Z` and `s·B == R2 + c·pk` hold. In particular a response not made
/// with the discrete logarithm of `pk` fails the second equation.
pub proof fn law_dleq_verification_equations(
    pk: nat,
    blinded: Seq<u8>,
    output: Seq<u8>,
    r1: Seq<u8>,
    r2: Seq<u8>,
    s: nat,
)
    ensures
        dleq_verifies(pk, blinded, output, r1, r2, s) <==> (decoded(blinded) is Some
            && decoded(output) is Some && decoded(r1) is Some && decoded(r2) is Some
            && decoded(blinded)->0 != 0 && {
            let l = group_order();
            let c = bytes_to_nat(
                sha512_digest(OPRF_PREFIX_CHALLENGE@ + blinded + ristretto_encoding(pk) + output + r1 + r2),
            ) % l;
            (s * decoded(blinded)->0) % l == (decoded(r1)->0 + c * decoded(output)->0) % l
                && s % l == (decoded(r2)->0 + c * pk) % l
        }),
{
}

/// The oracle answers exactly the blinded bytes that encode a point other than the
/// identity, and its answer carries the encodings of `Z = sk·T`, `R1 = k·T` and
/// `R2 = k·B`, for `k` the HKDF nonce of `sk` and the blinded bytes.
pub proof fn law_oprf_answer_points(
    sk: nat,
    pk: nat,
    blinded: Seq<u8>,
    output: Seq<u8>,
    r1: Seq<u8>,
    r2: Seq<u8>,
    s: nat,
)
    ensures
        oprf_evaluation(sk, pk, blinded) is Some <==> (decoded(blinded) is Some && decoded(
            blinded,
        )->0 != 0),
        is_oprf_answer(sk, pk, blinded, output, r1, r2, s) ==> ({
            let t = decoded(blinded)->0;
            let k = spec_hkdf_nonce(sk, blinded);
            &&& output == ristretto_encoding((sk * t) % group_order())
            &&& r1 == ristretto_encoding((k * t) % group_order())
            &&& r2 == ristretto_encoding(k)
            &&& decoded(output) == Some((sk * t) % group_order())
        }),
{
}

/// The oracle's response binds the whole transcript: in every answer,
/// `s = k + c·sk (mod ℓ)` where `k` is the HKDF nonce of `sk` and the blinded bytes and
/// `c` is the SHA-512 of `prefix || T || pk || Z || R1 || R2`, with `Z`, `R1`, `R2` the
/// encodings the answer carries, reduced modulo ℓ.
pub proof fn law_oprf_response_binds_transcript(
    sk: nat,
    pk: nat,
    blinded: Seq<u8>,
    output: Seq<u8>,
    r1: Seq<u8>,
    r2: Seq<u8>,
    s: nat,
)
    requires
        is_oprf_answer(sk, pk, blinded, output, r1, r2, s),
    ensures
        s == (spec_hkdf_nonce(sk, blinded) + (bytes_to_nat(
            sha512_digest(OPRF_PREFIX_CHALLENGE@ + blinded + ristretto_encoding(pk) + output + r1 + r2),
        ) % group_order()) * sk) % group_order(),
{
}

} // verus!
