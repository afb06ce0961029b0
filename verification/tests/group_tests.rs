use ephemeral_vrf::group::{GroupScalar, Point};

fn scalar(n: u64) -> GroupScalar {
    let mut bytes = [0u8; 32];
    bytes[..8].copy_from_slice(&n.to_le_bytes());
    GroupScalar::from_bytes_mod_order(bytes)
}

const BASEPOINT_COMPRESSED: [u8; 32] = [
    226, 242, 174, 10, 106, 188, 78, 113, 168, 132, 169, 97, 197, 0, 81, 95, 88, 227, 11, 106, 165,
    130, 221, 141, 182, 166, 89, 69, 224, 141, 45, 118,
];

const L_MINUS_1: [u8; 32] = [
    236, 211, 245, 92, 26, 99, 18, 88, 214, 156, 247, 162, 222, 249, 222, 20, 0, 0, 0, 0, 0, 0, 0,
    0, 0, 0, 0, 0, 0, 0, 0, 16,
];

#[test]
fn basepoint_compresses_to_known_encoding() {
    let b = Point::mul_base(&scalar(1));
    assert_eq!(b.compress(), BASEPOINT_COMPRESSED);
}

#[test]
fn identity_compresses_to_zero_bytes() {
    assert_eq!(Point::identity().compress(), [0u8; 32]);
    assert_eq!(Point::mul_base(&scalar(0)).compress(), [0u8; 32]);
}

#[test]
fn decompress_inverts_compress() {
    let p = Point::mul_base(&scalar(12345));
    let q = Point::decompress(&p.compress()).expect("valid encoding");
    assert!(p.equals(&q));
    assert_eq!(q.compress(), p.compress());
}

#[test]
fn decompress_rejects_non_canonical_bytes() {
    assert!(Point::decompress(&[0xffu8; 32]).is_none());
    let mut odd = [0u8; 32];
    odd[0] = 1; // negative field element
    assert!(Point::decompress(&odd).is_none());
}

#[test]
fn point_mul_matches_basepoint_mul() {
    let b = Point::mul_base(&scalar(1));
    let five_b = b.mul(&scalar(5));
    assert!(five_b.equals(&Point::mul_base(&scalar(5))));
    assert!(!five_b.equals(&b));
}

#[test]
fn point_add_adds_logarithms() {
    let sum = Point::mul_base(&scalar(2)).add(&Point::mul_base(&scalar(3)));
    assert_eq!(sum.compress(), Point::mul_base(&scalar(5)).compress());
}

#[test]
fn scalar_bytes_round_trip() {
    let mut bytes = [0u8; 32];
    bytes[0] = 42;
    bytes[20] = 7;
    assert_eq!(GroupScalar::from_bytes_mod_order(bytes).to_bytes(), bytes);
}

#[test]
fn scalar_reduction_wraps_at_group_order() {
    let mut l_bytes = L_MINUS_1;
    l_bytes[0] += 1; // ℓ itself
    assert_eq!(GroupScalar::from_bytes_mod_order(l_bytes).to_bytes(), [0u8; 32]);
    let wide = GroupScalar::from_bytes_mod_order_wide(&[0xffu8; 64]);
    let expected: [u8; 32] = [
        0, 15, 156, 68, 227, 17, 6, 164, 71, 147, 133, 104, 167, 27, 14, 208, 101, 190, 245, 23,
        210, 115, 236, 206, 61, 154, 48, 124, 27, 65, 153, 3,
    ];
    assert_eq!(wide.to_bytes(), expected);
}

#[test]
fn scalar_add_and_mul_are_modular() {
    assert_eq!(scalar(2).mul(&scalar(3)).to_bytes(), scalar(6).to_bytes());
    let l_minus_1 = GroupScalar::from_bytes_mod_order(L_MINUS_1);
    assert_eq!(l_minus_1.add(&scalar(2)).to_bytes(), scalar(1).to_bytes());
    assert_eq!(l_minus_1.mul(&l_minus_1).to_bytes(), scalar(1).to_bytes());
}

#[test]
fn scalar_invert_gives_multiplicative_inverse() {
    let x = GroupScalar::from_bytes_mod_order([
        0x4e, 0x5a, 0xb4, 0x34, 0x5d, 0x47, 0x08, 0x84, 0x59, 0x13, 0xb4, 0x64, 0x1b, 0xc2, 0x7d,
        0x52, 0x52, 0xa5, 0x85, 0x10, 0x1b, 0xcc, 0x42, 0x44, 0xd4, 0x49, 0xf4, 0xa8, 0x79, 0xd9,
        0xf2, 0x04,
    ]);
    let expected_inverse: [u8; 32] = [
        0x1c, 0xdc, 0x17, 0xfc, 0xe0, 0xe9, 0xa5, 0xbb, 0xd9, 0x24, 0x7e, 0x56, 0xbb, 0x01, 0x63,
        0x47, 0xbb, 0xba, 0x31, 0xed, 0xd5, 0xa9, 0xbb, 0x96, 0xd5, 0x0b, 0xcd, 0x7a, 0x3f, 0x96,
        0x2a, 0x0f,
    ];
    let inv = x.invert();
    assert_eq!(inv.to_bytes(), expected_inverse);
    assert_eq!(inv.mul(&x).to_bytes(), scalar(1).to_bytes());
    assert_eq!(scalar(0).invert().to_bytes(), [0u8; 32]);
}
