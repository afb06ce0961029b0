//! The decisions of the RequestObliviousRandomness instruction: which blinded points it
//! accepts, the identifier it gives the queued request, and its fee.
use vstd::prelude::*;
use crate::bytes::{append_bytes, is_all_zero, u32_le_bytes, u64_le_bytes};
use crate::group::{
    bytes_to_nat, decoded, group_order, le_bytes, lemma_bytes_to_nat_of_le_bytes,
    ristretto_encoding, zero_bytes32,
};
use vstd::arithmetic::power::pow;
use crate::oprf::oprf_evaluation;
use crate::program::{FeeTier, OracleError};

verus! {

/// The SHA-256 digest of a byte string.
pub uninterp spec fn sha256_digest(data: Seq<u8>) -> Seq<u8>;

/// `solana_program::hash::hashv` over the single slice `data`. `hashv` feeds its slices
/// in order into one SHA-256 computation, so this is the SHA-256 digest of `data`.
#[verifier::external_body]
fn hashv(data: &[u8]) -> (res: [u8; 32])
    ensures
        res@ == sha256_digest(data@),
{
    solana_program::hash::hashv(&[data]).to_bytes()
}

/// `solana_curve25519::ristretto::multiply_ristretto`: `Some` of the encoding of
/// `scalar·point` exactly when the scalar bytes are a canonical scalar (below ℓ) and the
/// point bytes are the encoding of a point; `None` otherwise.
#[verifier::external_body]
fn multiply_ristretto(scalar: &[u8; 32], point: &[u8; 32]) -> (res: Option<[u8; 32]>)
    ensures
        res is Some <==> (bytes_to_nat(scalar@) < group_order() && decoded(point@) is Some),
        res matches Some(product) ==> product@ == ristretto_encoding(
            (bytes_to_nat(scalar@) * decoded(point@)->0) % group_order(),
        ),
{
    solana_curve25519::ristretto::multiply_ristretto(
        &solana_curve25519::scalar::PodScalar(*scalar),
        &solana_curve25519::ristretto::PodRistrettoPoint(*point),
    ).map(|product| product.0)
}

/// What the request instruction answers for a blinded point and the callback
/// arguments: the all-zero encoding and bytes that are not the encoding of a point are
/// invalid arguments, and callback arguments that do not start with the 32-byte blinded
/// point (too short, or with another prefix) are invalid instruction data.
pub open spec fn oblivious_request_check(blinded: Seq<u8>, callback_args: Seq<u8>) -> Result<
    (),
    OracleError,
> {
    if blinded == zero_bytes32() {
        Err(OracleError::InvalidArgument)
    } else if decoded(blinded) is None {
        Err(OracleError::InvalidArgument)
    } else if callback_args.len() < 32 || callback_args.subrange(0, 32) != blinded {
        Err(OracleError::InvalidInstructionData)
    } else {
        Ok(())
    }
}

/// The integer that 32 zero bytes encode is 0.
proof fn lemma_bytes_to_nat_zeros(n: nat)
    ensures
        bytes_to_nat(Seq::new(n, |_i: int| 0u8)) == 0,
    decreases n,
{
    if n > 0 {
        assert(Seq::new(n, |_i: int| 0u8).drop_first() =~= Seq::new((n - 1) as nat, |_i: int| 0u8));
        lemma_bytes_to_nat_zeros((n - 1) as nat);
    }
}

/// Checks the blinded point and the callback arguments of an oblivious request: the
/// point must not be the all-zero (identity) encoding, must be a valid Ristretto point
/// (checked by multiplying it by the scalar one), and the callback arguments must start
/// with the 32-byte blinded point, which the fulfilment reads back from them.
pub fn check_oblivious_request(blinded_point: &[u8; 32], callback_args: &[u8]) -> (res: Result<
    (),
    OracleError,
>)
    ensures
        res == oblivious_request_check(blinded_point@, callback_args@),
{
    if is_all_zero(blinded_point) {
        return Err(OracleError::InvalidArgument);
    }
    let mut one = [0u8; 32];
    one[0] = 1;
    proof {
        assert(one@.drop_first() =~= Seq::new(31, |_i: int| 0u8));
        lemma_bytes_to_nat_zeros(31);
        assert(bytes_to_nat(one@) == 1);
    }
    if multiply_ristretto(&one, blinded_point).is_none() {
        return Err(OracleError::InvalidArgument);
    }
    // Ensure callback_args starts with the 32-byte blinded point.
    if callback_args.len() < 32 {
        return Err(OracleError::InvalidInstructionData);
    }
    let mut i: usize = 0;
    while i < 32
        invariant
            i <= 32,
            callback_args@.len() >= 32,
            blinded_point@.len() == 32,
            blinded_point@ != zero_bytes32(),
            decoded(blinded_point@) is Some,
            forall|j: int| 0 <= j < i ==> callback_args@[j] == blinded_point@[j],
        decreases 32 - i,
    {
        if callback_args[i] != blinded_point[i] {
            assert(callback_args@.subrange(0, 32)[i as int] != blinded_point@[i as int]);
            return Err(OracleError::InvalidInstructionData);
        }
        i = i + 1;
    }
    assert(callback_args@.subrange(0, 32) =~= blinded_point@);
    Ok(())
}

/// A blinded point that the request instruction accepts is one the oracle answers:
/// it decodes, and it is not the identity, whose encoding (the 32 zero bytes that the
/// request refuses) `Point::identity` states as `decoded(zero_bytes32()) == Some(0)`.
pub proof fn law_accepted_request_is_answered(
    sk: nat,
    pk: nat,
    blinded: Seq<u8>,
    callback_args: Seq<u8>,
)
    requires
        oblivious_request_check(blinded, callback_args) is Ok,
        decoded(zero_bytes32()) == Some(0nat),
    ensures
        oprf_evaluation(sk, pk, blinded) is Some,
{
    let t = decoded(blinded)->0;
    if t == 0 {
        assert(ristretto_encoding(0) == blinded);
        assert(ristretto_encoding(0) == zero_bytes32());
    }
}

/// What an accepted request carries: a blinded point that is the encoding of a point
/// other than the all-zero encoding, and callback arguments of at least 32 bytes that
/// start with it, so that the fulfilment reads the same point back.
/// Conversely, such a request is accepted; the all-zero encoding and bytes that encode no
/// point are refused as invalid arguments, and a valid point whose callback arguments do
/// not start with it as invalid instruction data.
pub proof fn law_accepted_request_starts_with_point(blinded: Seq<u8>, callback_args: Seq<u8>)
    ensures
        oblivious_request_check(blinded, callback_args) is Ok <==> (blinded != zero_bytes32()
            && decoded(blinded) is Some && callback_args.len() >= 32 && callback_args.subrange(
            0,
            32,
        ) == blinded),
        blinded == zero_bytes32() || decoded(blinded) is None ==> oblivious_request_check(
            blinded,
            callback_args,
        ) == Err::<(), OracleError>(OracleError::InvalidArgument),
        blinded != zero_bytes32() && decoded(blinded) is Some && !(callback_args.len() >= 32
            && callback_args.subrange(0, 32) == blinded) ==> oblivious_request_check(
            blinded,
            callback_args,
        ) == Err::<(), OracleError>(OracleError::InvalidInstructionData),
{
}

/// The bytes hashed into a request identifier: the blinded point, the slot, the slot
/// hash, the callback discriminator, the callback program, the Unix time and the
/// request's index in the queue, integers little-endian.
pub open spec fn request_id_input(
    blinded: Seq<u8>,
    slot: u64,
    slothash: Seq<u8>,
    discriminator: Seq<u8>,
    program_id: Seq<u8>,
    time: i64,
    index: u32,
) -> Seq<u8> {
    blinded + le_bytes(slot as nat, 8) + slothash + discriminator + program_id + le_bytes(
        time as u64 as nat,
        8,
    ) + le_bytes(index as nat, 4)
}

/// Whether a callback discriminator is too long to be queued.
pub open spec fn discriminator_too_long(discriminator: Seq<u8>) -> bool {
    discriminator.len() > 8
}

/// The identifier of a queued oblivious request, SHA-256 of its [`request_id_input`];
/// a callback discriminator longer than 8 bytes is refused.
pub fn derive_oblivious_request_id(
    blinded_point: &[u8; 32],
    slot: u64,
    slothash: &[u8; 32],
    callback_discriminator: &[u8],
    callback_program_id: &[u8; 32],
    time: i64,
    index: u32,
) -> (res: Result<[u8; 32], OracleError>)
    ensures
        res is Err <==> discriminator_too_long(callback_discriminator@),
        callback_discriminator@.len() > 8 ==> res == Err::<[u8; 32], OracleError>(
            OracleError::ArgumentSizeTooLarge,
        ),
        callback_discriminator@.len() <= 8 ==> (res matches Ok(id) && id@ == sha256_digest(
            request_id_input(
                blinded_point@,
                slot,
                slothash@,
                callback_discriminator@,
                callback_program_id@,
                time,
                index,
            ),
        )),
{
    let mut input: Vec<u8> = Vec::new();
    append_bytes(&mut input, blinded_point.as_slice());
    let slot_bytes = u64_le_bytes(slot);
    append_bytes(&mut input, slot_bytes.as_slice());
    append_bytes(&mut input, slothash.as_slice());
    append_bytes(&mut input, callback_discriminator);
    append_bytes(&mut input, callback_program_id.as_slice());
    let time_bytes = u64_le_bytes(time as u64);
    append_bytes(&mut input, time_bytes.as_slice());
    let index_bytes = u32_le_bytes(index);
    append_bytes(&mut input, index_bytes.as_slice());
    let id = hashv(input.as_slice());
    if callback_discriminator.len() > 8 {
        return Err(OracleError::ArgumentSizeTooLarge);
    }
    Ok(id)
}

/// The fee tier of a request on the default queue or another.
pub open spec fn request_fee_tier(queue_is_default: bool) -> FeeTier {
    if queue_is_default {
        FeeTier::Waived
    } else {
        FeeTier::Standard
    }
}

/// The fee of a request: none on the default ephemeral queue, the standard cost on
/// any other.
pub fn request_fee(queue_is_default: bool) -> (res: FeeTier)
    ensures
        res == request_fee_tier(queue_is_default),
{
    if queue_is_default {
        FeeTier::Waived
    } else {
        FeeTier::Standard
    }
}

/// A callback discriminator is refused exactly when it is longer than 8 bytes.
pub proof fn law_discriminator_limit(discriminator: Seq<u8>)
    ensures
        discriminator_too_long(discriminator) <==> discriminator.len() > 8,
{
}

/// A request pays nothing exactly on the default ephemeral queue, and never pays the
/// high-priority cost.
pub proof fn law_request_fee(queue_is_default: bool)
    ensures
        (request_fee_tier(queue_is_default) == FeeTier::Waived) == queue_is_default,
        request_fee_tier(queue_is_default) != FeeTier::HighPriority,
{
}

/// The layout of the bytes a request identifier hashes: the 32-byte blinded point,
/// 8 bytes that encode the slot, the 32-byte slot hash, the discriminator, the 32-byte
/// callback program, 8 bytes that encode the time (two's complement) and 4 bytes that
/// encode the queue index, integers little-endian, and nothing else.
pub proof fn law_request_id_input_layout(
    blinded: Seq<u8>,
    slot: u64,
    slothash: Seq<u8>,
    discriminator: Seq<u8>,
    program_id: Seq<u8>,
    time: i64,
    index: u32,
)
    requires
        blinded.len() == 32,
        slothash.len() == 32,
        program_id.len() == 32,
    ensures
        ({
            let x = request_id_input(blinded, slot, slothash, discriminator, program_id, time, index);
            let d = discriminator.len() as int;
            &&& x.len() == 116 + d
            &&& x.subrange(0, 32) == blinded
            &&& bytes_to_nat(x.subrange(32, 40)) == slot
            &&& x.subrange(40, 72) == slothash
            &&& x.subrange(72, 72 + d) == discriminator
            &&& x.subrange(72 + d, 104 + d) == program_id
            &&& bytes_to_nat(x.subrange(104 + d, 112 + d)) == time as u64
            &&& bytes_to_nat(x.subrange(112 + d, 116 + d)) == index
        }),
{
    let d = discriminator.len() as int;
    let slot_bytes = le_bytes(slot as nat, 8);
    let time_bytes = le_bytes(time as u64 as nat, 8);
    let index_bytes = le_bytes(index as nat, 4);
    lemma_bytes_to_nat_of_le_bytes(slot as nat, 8);
    lemma_bytes_to_nat_of_le_bytes(time as u64 as nat, 8);
    lemma_bytes_to_nat_of_le_bytes(index as nat, 4);
    reveal_with_fuel(pow, 9);
    assert(pow(256, 8) == 0x1_0000_0000_0000_0000int);
    assert(pow(256, 4) == 0x1_0000_0000int);
    vstd::arithmetic::div_mod::lemma_small_mod(slot as nat, pow(256, 8) as nat);
    vstd::arithmetic::div_mod::lemma_small_mod(time as u64 as nat, pow(256, 8) as nat);
    vstd::arithmetic::div_mod::lemma_small_mod(index as nat, pow(256, 4) as nat);
    let x = request_id_input(blinded, slot, slothash, discriminator, program_id, time, index);
    assert(x == blinded + slot_bytes + slothash + discriminator + program_id + time_bytes + index_bytes);
    assert(x.subrange(0, 32) =~= blinded);
    assert(x.subrange(32, 40) =~= slot_bytes);
    assert(x.subrange(40, 72) =~= slothash);
    assert(x.subrange(72, 72 + d) =~= discriminator);
    assert(x.subrange(72 + d, 104 + d) =~= program_id);
    assert(x.subrange(104 + d, 112 + d) =~= time_bytes);
    assert(x.subrange(112 + d, 116 + d) =~= index_bytes);
}

} // verus!
