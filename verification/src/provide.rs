//! The decisions of the ProvideObliviousRandomness instruction: which queued requests
//! an oracle may answer, where the blinded point is found, what the callback receives,
//! and the fee.
use vstd::prelude::*;
use crate::bytes::{append_bytes, bytes32_eq};
use crate::program::{FeeTier, OracleError};

verus! {

/// Whether `key` is among `keys`.
pub open spec fn contains_key(keys: Seq<[u8; 32]>, key: Seq<u8>) -> bool {
    exists|i: int| 0 <= i < keys.len() && (#[trigger] keys[i])@ == key
}

/// What the instruction answers for a queued request of type `request_type` whose
/// callback accounts are `callback_account_keys`, answered by the oracle `oracle_key`:
/// only oblivious requests (type 1) are answered, and never when the oracle itself is a
/// callback account.
pub open spec fn oblivious_item_check(
    request_type: u8,
    callback_account_keys: Seq<[u8; 32]>,
    oracle_key: Seq<u8>,
) -> Result<(), OracleError> {
    if request_type != 1 {
        Err(OracleError::InvalidArgument)
    } else if contains_key(callback_account_keys, oracle_key) {
        Err(OracleError::InvalidCallbackAccounts)
    } else {
        Ok(())
    }
}

/// Checks that a queued request is an oblivious one and that the oracle is not among
/// its callback accounts.
pub fn check_oblivious_item(
    request_type: u8,
    callback_account_keys: &Vec<[u8; 32]>,
    oracle_key: &[u8; 32],
) -> (res: Result<(), OracleError>)
    ensures
        res == oblivious_item_check(request_type, callback_account_keys@, oracle_key@),
{
    // Reject unknown request types.
    if request_type != 1 {
        return Err(OracleError::InvalidArgument);
    }
    let mut i: usize = 0;
    while i < callback_account_keys.len()
        invariant
            request_type == 1,
            i <= callback_account_keys@.len(),
            forall|j: int| 0 <= j < i ==> callback_account_keys@[j]@ != oracle_key@,
        decreases callback_account_keys@.len() - i,
    {
        if bytes32_eq(&callback_account_keys[i], oracle_key) {
            assert(callback_account_keys@[i as int]@ == oracle_key@);
            return Err(OracleError::InvalidCallbackAccounts);
        }
        i = i + 1;
    }
    Ok(())
}

/// What the instruction answers for the current slot and the request's slot.
pub open spec fn provide_slot_check(current_slot: u64, request_slot: u64) -> Result<(), OracleError> {
    if current_slot <= request_slot {
        Err(OracleError::OracleMustProvideInDifferentSlot)
    } else {
        Ok(())
    }
}

/// The oracle must answer in a later slot than the one the request was made in.
pub fn check_provide_slot(current_slot: u64, request_slot: u64) -> (res: Result<(), OracleError>)
    ensures
        res == provide_slot_check(current_slot, request_slot),
{
    if current_slot <= request_slot {
        Err(OracleError::OracleMustProvideInDifferentSlot)
    } else {
        Ok(())
    }
}

/// The part of the callback arguments that holds the blinded point.
pub open spec fn callback_args_point(callback_args: Seq<u8>) -> Seq<u8> {
    callback_args.subrange(0, 32)
}

/// The blinded point: the first 32 bytes of the queued callback arguments, which must
/// be at least that long.
pub fn blinded_point_from_callback_args(callback_args: &[u8]) -> (res: Result<[u8; 32], OracleError>)
    ensures
        callback_args@.len() < 32 ==> res == Err::<[u8; 32], OracleError>(OracleError::InvalidAccountData),
        callback_args@.len() >= 32 ==> (res matches Ok(point) && point@ == callback_args_point(callback_args@)),
{
    if callback_args.len() < 32 {
        return Err(OracleError::InvalidAccountData);
    }
    let mut point = [0u8; 32];
    for i in 0..32
        invariant
            callback_args@.len() >= 32,
            point@.len() == 32,
            forall|j: int| 0 <= j < i ==> point@[j] == callback_args@[j],
    {
        point[i] = callback_args[i];
    }
    assert(point@ =~= callback_args@.subrange(0, 32));
    Ok(point)
}

/// The caller's own callback arguments: what follows the 32-byte blinded point, or
/// nothing when the arguments are shorter.
pub open spec fn user_callback_args(callback_args: Seq<u8>) -> Seq<u8> {
    if callback_args.len() >= 32 {
        callback_args.subrange(32, callback_args.len() as int)
    } else {
        Seq::empty()
    }
}

/// The data of the callback instruction: the discriminator, the raw 32-byte OPRF
/// output `Z`, then the caller's own arguments with the blinded point stripped. The
/// client unblinds `Z` and hashes the result to obtain the final randomness.
pub fn oblivious_callback_data(discriminator: &[u8], output: &[u8; 32], callback_args: &[u8]) -> (res: Vec<u8>)
    ensures
        res@ == discriminator@ + output@ + user_callback_args(callback_args@),
{
    let mut data: Vec<u8> = Vec::new();
    append_bytes(&mut data, discriminator);
    append_bytes(&mut data, output.as_slice());
    if callback_args.len() >= 32 {
        let mut i: usize = 32;
        while i < callback_args.len()
            invariant
                32 <= i <= callback_args@.len(),
                data@ == discriminator@ + output@ + callback_args@.subrange(32, i as int),
            decreases callback_args@.len() - i,
        {
            data.push(callback_args[i]);
            assert(callback_args@.subrange(32, i + 1) =~= callback_args@.subrange(32, i as int).push(
                callback_args@[i as int],
            ));
            i = i + 1;
        }
    } else {
        assert(data@ =~= discriminator@ + output@ + Seq::<u8>::empty());
    }
    data
}

/// The fee tier for answering a request on the default queue or another, with the
/// request's priority flag.
pub open spec fn provide_fee_tier(queue_is_default: bool, priority_request: u8) -> FeeTier {
    if queue_is_default {
        FeeTier::Waived
    } else if priority_request == 1 {
        FeeTier::HighPriority
    } else {
        FeeTier::Standard
    }
}

/// The fee for answering a request: none on the default ephemeral queue; otherwise
/// the high-priority cost for a priority request (flag 1) and the standard cost for
/// any other.
pub fn provide_fee(queue_is_default: bool, priority_request: u8) -> (res: FeeTier)
    ensures
        res == provide_fee_tier(queue_is_default, priority_request),
{
    if queue_is_default {
        FeeTier::Waived
    } else if priority_request == 1 {
        FeeTier::HighPriority
    } else {
        FeeTier::Standard
    }
}

/// The callback arguments of an oblivious request are the blinded point followed by the
/// caller's own arguments; answering it reads the blinded point back from them and
/// forwards exactly the caller's arguments to the callback.
pub proof fn law_blinded_prefix_round_trip(blinded: Seq<u8>, user_args: Seq<u8>)
    requires
        blinded.len() == 32,
    ensures
        callback_args_point(blinded + user_args) == blinded,
        user_callback_args(blinded + user_args) == user_args,
{
    assert((blinded + user_args).subrange(0, 32) =~= blinded);
    assert((blinded + user_args).subrange(32, (blinded + user_args).len() as int) =~= user_args);
}

/// An oblivious item is answered only by an oracle that is none of its callback
/// accounts: whenever the oracle's key equals the callback account key at any index,
/// the item is refused with `InvalidCallbackAccounts`, and an accepted item is an
/// oblivious one whose callback accounts all differ from the oracle.
pub proof fn law_oracle_never_among_callback_accounts(
    request_type: u8,
    callback_account_keys: Seq<[u8; 32]>,
    oracle_key: Seq<u8>,
    i: int,
)
    ensures
        request_type == 1 && 0 <= i < callback_account_keys.len() && callback_account_keys[i]@
            == oracle_key ==> oblivious_item_check(request_type, callback_account_keys, oracle_key)
            == Err::<(), OracleError>(OracleError::InvalidCallbackAccounts),
        oblivious_item_check(request_type, callback_account_keys, oracle_key) is Ok ==> (
        request_type == 1 && (0 <= i < callback_account_keys.len() ==> callback_account_keys[i]@
            != oracle_key)),
        request_type != 1 ==> oblivious_item_check(request_type, callback_account_keys, oracle_key)
            == Err::<(), OracleError>(OracleError::InvalidArgument),
        request_type == 1 && (forall|j: int|
            0 <= j < callback_account_keys.len() ==> (#[trigger] callback_account_keys[j])@
                != oracle_key) ==> oblivious_item_check(
            request_type,
            callback_account_keys,
            oracle_key,
        ) is Ok,
{
}

/// The oracle answers only in a slot strictly later than the request's, and refuses
/// otherwise with `OracleMustProvideInDifferentSlot`.
pub proof fn law_provide_in_later_slot(current_slot: u64, request_slot: u64)
    ensures
        provide_slot_check(current_slot, request_slot) is Ok <==> current_slot > request_slot,
        provide_slot_check(current_slot, request_slot) is Err ==> provide_slot_check(
            current_slot,
            request_slot,
        ) == Err::<(), OracleError>(OracleError::OracleMustProvideInDifferentSlot),
{
}

/// Answering pays nothing exactly on the default ephemeral queue; on any other queue it
/// pays the high-priority cost exactly for requests flagged 1, and the standard cost
/// otherwise.
pub proof fn law_provide_fee(queue_is_default: bool, priority_request: u8)
    ensures
        (provide_fee_tier(queue_is_default, priority_request) == FeeTier::Waived)
            == queue_is_default,
        !queue_is_default ==> ((provide_fee_tier(queue_is_default, priority_request)
            == FeeTier::HighPriority) == (priority_request == 1)),
{
}

/// The callback data is the discriminator, then the 32 bytes of the OPRF output, then
/// the caller's arguments with the leading blinded point removed.
pub proof fn law_callback_data_layout(
    discriminator: Seq<u8>,
    output: Seq<u8>,
    blinded: Seq<u8>,
    user_args: Seq<u8>,
)
    requires
        output.len() == 32,
        blinded.len() == 32,
    ensures
        ({
            let data = discriminator + output + user_callback_args(blinded + user_args);
            let d = discriminator.len() as int;
            &&& data.len() == d + 32 + user_args.len()
            &&& data.subrange(0, d) == discriminator
            &&& data.subrange(d, d + 32) == output
            &&& data.subrange(d + 32, data.len() as int) == user_args
        }),
{
    let d = discriminator.len() as int;
    assert((blinded + user_args).subrange(32, (blinded + user_args).len() as int) =~= user_args);
    let data = discriminator + output + user_args;
    assert(data.subrange(0, d) =~= discriminator);
    assert(data.subrange(d, d + 32) =~= output);
    assert(data.subrange(d + 32, data.len() as int) =~= user_args);
}

} // verus!
