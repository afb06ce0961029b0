//! Oblivious randomness for an ephemeral VRF oracle: the OPRF evaluation with its
//! DLEQ proof over the Ristretto group, and the decisions that the on-chain
//! request and fulfilment instructions make.
pub mod bytes;
pub mod consts;
pub mod group;
pub mod oprf;
pub mod primitives;
pub mod program;
pub mod provide;
pub mod request;
