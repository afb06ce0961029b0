//! What the on-chain instructions answer when they refuse a request, and which fee
//! they charge.
use vstd::prelude::*;

verus! {

/// Why an oblivious-randomness instruction is refused.
#[derive(Clone, Copy, Debug, PartialEq, Eq, Structural)]
pub enum OracleError {
    /// The blinded point is the all-zero (identity) encoding or not a Ristretto point,
    /// or the queued request is not an oblivious one.
    InvalidArgument,
    /// The callback arguments are too short to hold the blinded point.
    InvalidInstructionData,
    /// The queued callback arguments are too short to hold the blinded point.
    InvalidAccountData,
    /// The callback discriminator is longer than 8 bytes.
    ArgumentSizeTooLarge,
    /// The oracle itself is among the callback accounts.
    InvalidCallbackAccounts,
    /// The oracle answers in the slot of the request (or earlier).
    OracleMustProvideInDifferentSlot,
}

/// The fee that an instruction moves between the requester, the queue and the oracle.
#[derive(Clone, Copy, Debug, PartialEq, Eq, Structural)]
pub enum FeeTier {
    /// No fee: the request went to the default ephemeral queue.
    Waived,
    /// The standard VRF cost.
    Standard,
    /// The cost of a high-priority request.
    HighPriority,
}

} // verus!
