use ephemeral_vrf::consts::OPRF_PREFIX_CHALLENGE;
use ephemeral_vrf::group::{GroupScalar, Point};
use ephemeral_vrf::oprf::{compute_oprf, dleq_response, unblind_oprf, verify_dleq, DleqProof};
use ephemeral_vrf::primitives::{hash_to_scalar, hkdf_nonce, nonce_from_okm};

fn scalar(n: u64) -> GroupScalar {
    let mut bytes = [0u8; 32];
    bytes[..8].copy_from_slice(&n.to_le_bytes());
    GroupScalar::from_bytes_mod_order(bytes)
}

struct Setup {
    sk: GroupScalar,
    pk: Point,
    h: Point,
    r: GroupScalar,
    blinded: [u8; 32],
}

fn setup() -> Setup {
    let sk = scalar(0x1234_5678_9abc_def0);
    let pk = Point::mul_base(&sk);
    let h = Point::mul_base(&scalar(987_654_321));
    let r = scalar(555_555_555_555);
    let blinded = h.mul(&r).compress();
    Setup { sk, pk, h, r, blinded }
}

#[test]
fn hkdf_nonce_exact_value() {
    let k = hkdf_nonce(&scalar(7), b"oblivious input");
    let expected: [u8; 32] = [
        207, 228, 124, 83, 19, 78, 7, 166, 192, 146, 19, 67, 193, 105, 230, 189, 64, 46, 244, 156,
        85, 35, 154, 168, 253, 61, 219, 185, 43, 176, 142, 1,
    ];
    assert_eq!(k.to_bytes(), expected);
}

#[test]
fn hash_to_scalar_exact_value() {
    let c = hash_to_scalar(b"challenge bytes");
    let expected: [u8; 32] = [
        136, 4, 158, 141, 11, 211, 88, 233, 73, 197, 211, 201, 62, 210, 105, 229, 44, 74, 240,
        227, 41, 213, 47, 28, 253, 190, 221, 66, 21, 88, 132, 13,
    ];
    assert_eq!(c.to_bytes(), expected);
}

#[test]
fn compute_oprf_output_is_sk_times_blinded_point() {
    let s = setup();
    let (output, proof) = compute_oprf(s.sk, s.pk, &s.blinded).expect("valid blinded point");
    let t = Point::decompress(&s.blinded).unwrap();
    assert_eq!(output, t.mul(&s.sk).compress());
    let k = hkdf_nonce(&s.sk, &s.blinded);
    assert_eq!(proof.r1, t.mul(&k).compress());
    assert_eq!(proof.r2, Point::mul_base(&k).compress());
    let mut challenge = OPRF_PREFIX_CHALLENGE.to_vec();
    challenge.extend_from_slice(&s.blinded);
    challenge.extend_from_slice(&s.pk.compress());
    challenge.extend_from_slice(&output);
    challenge.extend_from_slice(&proof.r1);
    challenge.extend_from_slice(&proof.r2);
    let c = hash_to_scalar(&challenge);
    assert_eq!(proof.s.to_bytes(), k.add(&c.mul(&s.sk)).to_bytes());
}

#[test]
fn compute_then_verify_accepts() {
    let s = setup();
    let (output, proof) = compute_oprf(s.sk, s.pk, &s.blinded).unwrap();
    assert!(verify_dleq(s.pk, &s.blinded, &output, &proof));
}

#[test]
fn compute_oprf_is_deterministic() {
    let s = setup();
    let (o1, p1) = compute_oprf(s.sk, s.pk, &s.blinded).unwrap();
    let (o2, p2) = compute_oprf(s.sk, s.pk, &s.blinded).unwrap();
    assert_eq!(o1, o2);
    assert_eq!(p1.r1, p2.r1);
    assert_eq!(p1.r2, p2.r2);
    assert_eq!(p1.s.to_bytes(), p2.s.to_bytes());
}

#[test]
fn compute_oprf_rejects_identity_and_invalid_points() {
    let s = setup();
    assert!(compute_oprf(s.sk, s.pk, &[0u8; 32]).is_none());
    assert!(compute_oprf(s.sk, s.pk, &[0xffu8; 32]).is_none());
}

#[test]
fn verify_rejects_tampered_proofs() {
    let s = setup();
    let (output, proof) = compute_oprf(s.sk, s.pk, &s.blinded).unwrap();
    // wrong output
    let other = Point::decompress(&output).unwrap().add(&s.h).compress();
    assert!(!verify_dleq(s.pk, &s.blinded, &other, &proof));
    // wrong response
    let bad_s = DleqProof { s: proof.s.add(&scalar(1)), ..proof };
    assert!(!verify_dleq(s.pk, &s.blinded, &output, &bad_s));
    // wrong commitment
    let bad_r1 = DleqProof { r1: proof.r2, ..proof };
    assert!(!verify_dleq(s.pk, &s.blinded, &output, &bad_r1));
    // wrong public key
    assert!(!verify_dleq(Point::mul_base(&scalar(3)), &s.blinded, &output, &proof));
    // undecodable commitment
    let bad_r2 = DleqProof { r2: [0xffu8; 32], ..proof };
    assert!(!verify_dleq(s.pk, &s.blinded, &output, &bad_r2));
}

#[test]
fn verify_rejects_identity_blinded_point() {
    let s = setup();
    let (output, proof) = compute_oprf(s.sk, s.pk, &s.blinded).unwrap();
    assert!(!verify_dleq(s.pk, &[0u8; 32], &output, &proof));
    assert!(!verify_dleq(s.pk, &[0xffu8; 32], &output, &proof));
}

#[test]
fn unblinding_recovers_sk_times_h() {
    let s = setup();
    let (output, _) = compute_oprf(s.sk, s.pk, &s.blinded).unwrap();
    let unblinded = unblind_oprf(&output, s.r).expect("valid output");
    assert_eq!(unblinded, s.h.mul(&s.sk).compress());
    // the blinding scalar does not matter
    let other_blinded = s.h.mul(&scalar(31337)).compress();
    let (other_output, _) = compute_oprf(s.sk, s.pk, &other_blinded).unwrap();
    assert_ne!(other_output, output);
    assert_eq!(unblind_oprf(&other_output, scalar(31337)).unwrap(), unblinded);
}

#[test]
fn unblind_rejects_invalid_output() {
    assert!(unblind_oprf(&[0xffu8; 32], scalar(2)).is_none());
}

#[test]
fn nonce_from_okm_uses_low_half() {
    let mut okm = [0xffu8; 64];
    okm[40] = 0; // the high half does not matter
    let expected: [u8; 32] = [
        28, 149, 152, 141, 116, 49, 236, 214, 112, 207, 125, 115, 244, 91, 239, 198, 254, 255, 255,
        255, 255, 255, 255, 255, 255, 255, 255, 255, 255, 255, 255, 15,
    ];
    assert_eq!(nonce_from_okm(&okm).to_bytes(), expected);
}

#[test]
fn dleq_response_is_k_plus_c_times_sk() {
    assert_eq!(dleq_response(&scalar(5), &scalar(3), &scalar(7)).to_bytes(), scalar(26).to_bytes());
}

#[test]
fn identity_point_is_zero_bytes_and_refused() {
    let s = setup();
    assert_eq!(Point::identity().compress(), [0u8; 32]);
    assert!(Point::decompress(&[0u8; 32]).unwrap().equals(&Point::identity()));
    assert!(compute_oprf(s.sk, s.pk, &[0u8; 32]).is_none());
}
