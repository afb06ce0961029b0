//! The Ristretto group and its scalars, as curve25519-dalek provides them.
//!
//! A scalar is modelled by the integer in `[0, ℓ)` that it represents, where ℓ is the
//! prime order of the group. A point is modelled by its discrete logarithm to the
//! Ristretto basepoint `B`: the group is cyclic of order ℓ and generated by `B`, so every
//! point is `x·B` for exactly one `x` in `[0, ℓ)`. Every group operation is computed by
//! curve25519-dalek; the contracts below say what it computes in that model.
use vstd::prelude::*;
use vstd::arithmetic::power::pow;

verus! {

/// ℓ = 2^252 + 27742317777372353535851937790883648493, the order of the Ristretto group.
pub open spec fn group_order() -> nat {
    7237005577332262213973186563042994240857116359379907606001950938285454250989nat
}

/// The integer that a little-endian byte string encodes.
pub open spec fn bytes_to_nat(bytes: Seq<u8>) -> nat
    decreases bytes.len(),
{
    if bytes.len() == 0 {
        0
    } else {
        bytes[0] as nat + 256 * bytes_to_nat(bytes.drop_first())
    }
}

/// The `len` low-order bytes of `value`, least significant first.
pub open spec fn le_bytes(value: nat, len: nat) -> Seq<u8>
    decreases len,
{
    if len == 0 {
        Seq::empty()
    } else {
        seq![(value % 256) as u8] + le_bytes(value / 256, (len - 1) as nat)
    }
}

/// Encoding the integer that a byte string encodes, on as many bytes, gives the byte
/// string back.
pub proof fn lemma_le_bytes_of_bytes_to_nat(bytes: Seq<u8>)
    ensures
        le_bytes(bytes_to_nat(bytes), bytes.len()) == bytes,
    decreases bytes.len(),
{
    if bytes.len() > 0 {
        let rest = bytes.drop_first();
        let r = bytes_to_nat(rest);
        vstd::arithmetic::div_mod::lemma_fundamental_div_mod_converse(
            bytes_to_nat(bytes) as int,
            256,
            r as int,
            bytes[0] as int,
        );
        lemma_le_bytes_of_bytes_to_nat(rest);
        assert(le_bytes(bytes_to_nat(bytes), bytes.len()) =~= bytes);
    }
}

/// The integer that the `len` low-order bytes of `value` encode is `value` modulo
/// `256^len`.
pub proof fn lemma_bytes_to_nat_of_le_bytes(value: nat, len: nat)
    ensures
        le_bytes(value, len).len() == len,
        bytes_to_nat(le_bytes(value, len)) == value % (pow(256, len) as nat),
    decreases len,
{
    reveal_with_fuel(pow, 2);
    if len > 0 {
        let rest = le_bytes(value / 256, (len - 1) as nat);
        lemma_bytes_to_nat_of_le_bytes(value / 256, (len - 1) as nat);
        assert(le_bytes(value, len).drop_first() =~= rest);
        vstd::arithmetic::power::lemma_pow_positive(256, (len - 1) as nat);
        vstd::arithmetic::div_mod::lemma_mod_breakdown(
            value as int,
            256,
            pow(256, (len - 1) as nat),
        );
    }
}

/// The 32-byte little-endian encoding of a scalar's value.
pub open spec fn scalar_bytes(value: nat) -> Seq<u8> {
    le_bytes(value, 32)
}

/// The multiplicative inverse that Fermat's little theorem gives: `value^(ℓ-2) mod ℓ`
/// (zero for zero).
pub open spec fn scalar_inverse(value: nat) -> nat {
    (pow(value as int, (group_order() - 2) as nat) % (group_order() as int)) as nat
}

/// The 32-byte Ristretto encoding (`RistrettoPoint::compress`) of the point `x·B`.
pub uninterp spec fn ristretto_encoding(x: nat) -> Seq<u8>;

/// The 32 zero bytes, which encode the identity point.
pub open spec fn zero_bytes32() -> Seq<u8> {
    Seq::new(32, |_i: int| 0u8)
}

/// The point that a byte string encodes, by its discrete logarithm, if it is the
/// encoding of a point.
pub open spec fn decoded(bytes: Seq<u8>) -> Option<nat> {
    if exists|x: nat| x < group_order() && ristretto_encoding(x) == bytes {
        Some(choose|x: nat| x < group_order() && ristretto_encoding(x) == bytes)
    } else {
        None
    }
}

#[verifier::external_type_specification]
#[verifier::external_body]
pub struct ExDalekScalar(curve25519_dalek::scalar::Scalar);

#[verifier::external_type_specification]
#[verifier::external_body]
pub struct ExDalekRistrettoPoint(curve25519_dalek::ristretto::RistrettoPoint);

/// An element of Z/ℓZ.
#[derive(Clone, Copy)]
pub struct GroupScalar {
    inner: curve25519_dalek::scalar::Scalar,
    value: Ghost<nat>,
}

impl View for GroupScalar {
    type V = nat;

    closed spec fn view(&self) -> nat {
        self.value@ % group_order()
    }
}

/// An element of the Ristretto group.
#[derive(Clone, Copy)]
pub struct Point {
    inner: curve25519_dalek::ristretto::RistrettoPoint,
    log: Ghost<nat>,
}

impl View for Point {
    type V = nat;

    closed spec fn view(&self) -> nat {
        self.log@ % group_order()
    }
}

/// A scalar's value lies in `[0, ℓ)`.
pub broadcast proof fn lemma_scalar_reduced(s: GroupScalar)
    ensures
        #[trigger] s@ < group_order(),
{
}

/// `Scalar::from_bytes_mod_order`: reduces a 256-bit little-endian integer modulo ℓ.
#[verifier::external_body]
fn dalek_from_bytes_mod_order(bytes: [u8; 32]) -> (res: GroupScalar)
    ensures
        res@ == bytes_to_nat(bytes@) % group_order(),
{
    GroupScalar {
        inner: curve25519_dalek::scalar::Scalar::from_bytes_mod_order(bytes),
        value: Ghost(bytes_to_nat(bytes@) % group_order()),
    }
}

/// `Scalar::from_bytes_mod_order_wide`: reduces a 512-bit little-endian integer modulo ℓ.
#[verifier::external_body]
fn dalek_from_bytes_mod_order_wide(bytes: &[u8; 64]) -> (res: GroupScalar)
    ensures
        res@ == bytes_to_nat(bytes@) % group_order(),
{
    GroupScalar {
        inner: curve25519_dalek::scalar::Scalar::from_bytes_mod_order_wide(bytes),
        value: Ghost(bytes_to_nat(bytes@) % group_order()),
    }
}

/// `Scalar::to_bytes`: the little-endian encoding of the scalar's canonical value.
#[verifier::external_body]
fn dalek_scalar_to_bytes(s: &GroupScalar) -> (res: [u8; 32])
    ensures
        res@ == scalar_bytes(s@),
{
    s.inner.to_bytes()
}

/// `Scalar + Scalar`: addition modulo ℓ.
#[verifier::external_body]
fn dalek_scalar_add(a: &GroupScalar, b: &GroupScalar) -> (res: GroupScalar)
    ensures
        res@ == (a@ + b@) % group_order(),
{
    GroupScalar { inner: a.inner + b.inner, value: Ghost((a@ + b@) % group_order()) }
}

/// `Scalar * Scalar`: multiplication modulo ℓ.
#[verifier::external_body]
fn dalek_scalar_mul(a: &GroupScalar, b: &GroupScalar) -> (res: GroupScalar)
    ensures
        res@ == (a@ * b@) % group_order(),
{
    GroupScalar { inner: a.inner * b.inner, value: Ghost((a@ * b@) % group_order()) }
}

/// `Scalar::invert`: raises the scalar to the power ℓ-2 (an addition chain in the
/// source), which for a nonzero scalar is its multiplicative inverse modulo ℓ.
#[verifier::external_body]
fn dalek_scalar_invert(a: &GroupScalar) -> (res: GroupScalar)
    ensures
        res@ == scalar_inverse(a@),
        a@ != 0 ==> (a@ * res@) % group_order() == 1,
{
    GroupScalar { inner: a.inner.invert(), value: Ghost(scalar_inverse(a@)) }
}

/// `Scalar * RistrettoPoint`: scalar multiplication, which multiplies the discrete
/// logarithm by the scalar modulo ℓ.
#[verifier::external_body]
fn dalek_point_mul(s: &GroupScalar, p: &Point) -> (res: Point)
    ensures
        res@ == (s@ * p@) % group_order(),
{
    Point { inner: s.inner * p.inner, log: Ghost((s@ * p@) % group_order()) }
}

/// `Scalar * RISTRETTO_BASEPOINT_TABLE`: fixed-base multiplication `s·B`.
#[verifier::external_body]
fn dalek_basepoint_mul(s: &GroupScalar) -> (res: Point)
    ensures
        res@ == s@,
{
    Point {
        inner: &s.inner * curve25519_dalek::constants::RISTRETTO_BASEPOINT_TABLE,
        log: Ghost(s@),
    }
}

/// `RistrettoPoint + RistrettoPoint`: the group law, adding discrete logarithms modulo ℓ.
#[verifier::external_body]
fn dalek_point_add(p: &Point, q: &Point) -> (res: Point)
    ensures
        res@ == (p@ + q@) % group_order(),
{
    Point { inner: p.inner + q.inner, log: Ghost((p@ + q@) % group_order()) }
}

/// `RistrettoPoint::identity`: the neutral element `0·B`, whose Ristretto encoding is
/// 32 zero bytes (so those bytes decode to it).
#[verifier::external_body]
fn dalek_point_identity() -> (res: Point)
    ensures
        res@ == 0,
        ristretto_encoding(res@) == zero_bytes32(),
        decoded(zero_bytes32()) == Some(res@),
{
    Point {
        inner: <curve25519_dalek::ristretto::RistrettoPoint as curve25519_dalek::traits::Identity>::identity(),
        log: Ghost(0nat),
    }
}

/// `RistrettoPoint == RistrettoPoint`: equality of group elements.
#[verifier::external_body]
fn dalek_point_eq(p: &Point, q: &Point) -> (res: bool)
    ensures
        res == (p@ == q@),
{
    p.inner == q.inner
}

/// `RistrettoPoint::compress`: the canonical Ristretto encoding of the point. The
/// encoding is canonical (two points are equal if and only if their encodings are),
/// so decoding it gives the point back.
#[verifier::external_body]
fn dalek_compress(p: &Point) -> (res: [u8; 32])
    ensures
        res@ == ristretto_encoding(p@),
        decoded(res@) == Some(p@),
{
    p.inner.compress().0
}

/// `CompressedRistretto::decompress`: `Some` of the point exactly when the bytes are the
/// canonical encoding of a point.
#[verifier::external_body]
fn dalek_decompress(bytes: &[u8; 32]) -> (res: Option<Point>)
    ensures
        match decoded(bytes@) {
            None => res is None,
            Some(x) => res matches Some(p) && p@ == x,
        },
{
    match curve25519_dalek::ristretto::CompressedRistretto(*bytes).decompress() {
        Some(p) => Some(
            Point {
                inner: p,
                log: Ghost(choose|x: nat| x < group_order() && ristretto_encoding(x) == bytes@),
            },
        ),
        None => None,
    }
}

impl GroupScalar {
    /// The scalar that a 256-bit little-endian integer is congruent to modulo ℓ.
    pub fn from_bytes_mod_order(bytes: [u8; 32]) -> (res: GroupScalar)
        ensures
            res@ == bytes_to_nat(bytes@) % group_order(),
    {
        dalek_from_bytes_mod_order(bytes)
    }

    /// The scalar that a 512-bit little-endian integer is congruent to modulo ℓ.
    pub fn from_bytes_mod_order_wide(bytes: &[u8; 64]) -> (res: GroupScalar)
        ensures
            res@ == bytes_to_nat(bytes@) % group_order(),
    {
        dalek_from_bytes_mod_order_wide(bytes)
    }

    /// The canonical little-endian encoding of the scalar.
    pub fn to_bytes(&self) -> (res: [u8; 32])
        ensures
            res@ == scalar_bytes(self@),
    {
        dalek_scalar_to_bytes(self)
    }

    /// The sum modulo ℓ.
    pub fn add(&self, other: &GroupScalar) -> (res: GroupScalar)
        ensures
            res@ == (self@ + other@) % group_order(),
    {
        dalek_scalar_add(self, other)
    }

    /// The product modulo ℓ.
    pub fn mul(&self, other: &GroupScalar) -> (res: GroupScalar)
        ensures
            res@ == (self@ * other@) % group_order(),
    {
        dalek_scalar_mul(self, other)
    }

    /// `self^(ℓ-2) mod ℓ`: the multiplicative inverse of a nonzero scalar, zero for zero.
    pub fn invert(&self) -> (res: GroupScalar)
        ensures
            res@ == scalar_inverse(self@),
            self@ != 0 ==> (self@ * res@) % group_order() == 1,
    {
        dalek_scalar_invert(self)
    }
}

impl Point {
    /// The identity element, encoded as 32 zero bytes.
    pub fn identity() -> (res: Point)
        ensures
            res@ == 0,
            ristretto_encoding(res@) == zero_bytes32(),
            decoded(zero_bytes32()) == Some(res@),
    {
        dalek_point_identity()
    }

    /// `s·B`, for the Ristretto basepoint `B`.
    pub fn mul_base(s: &GroupScalar) -> (res: Point)
        ensures
            res@ == s@,
    {
        dalek_basepoint_mul(s)
    }

    /// `s·self`.
    pub fn mul(&self, s: &GroupScalar) -> (res: Point)
        ensures
            res@ == (s@ * self@) % group_order(),
    {
        dalek_point_mul(s, self)
    }

    /// `self + other`.
    pub fn add(&self, other: &Point) -> (res: Point)
        ensures
            res@ == (self@ + other@) % group_order(),
    {
        dalek_point_add(self, other)
    }

    /// Whether the two points are the same group element.
    pub fn equals(&self, other: &Point) -> (res: bool)
        ensures
            res == (self@ == other@),
    {
        dalek_point_eq(self, other)
    }

    /// The canonical 32-byte encoding of the point.
    pub fn compress(&self) -> (res: [u8; 32])
        ensures
            res@ == ristretto_encoding(self@),
            decoded(res@) == Some(self@),
    {
        dalek_compress(self)
    }

    /// The point that the bytes encode, if they are the canonical encoding of one.
    pub fn decompress(bytes: &[u8; 32]) -> (res: Option<Point>)
        ensures
            match decoded(bytes@) {
                None => res is None,
                Some(x) => res matches Some(p) && p@ == x,
            },
    {
        dalek_decompress(bytes)
    }
}

} // verus!
