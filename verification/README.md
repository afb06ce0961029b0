# ephemeral_vrf

Oblivious randomness for an ephemeral VRF oracle, verified with Verus.

A client blinds a point `H` into `T = r·H` and queues a request; the oracle answers
with `Z = sk·T` and a DLEQ proof that `Z` and its public key `pk = sk·B` share the
discrete logarithm `sk`; the client unblinds `Z` into `sk·H`.

- `src/group.rs`: the Ristretto group and its scalars (curve25519-dalek), modelled by
  integers modulo the group order ℓ (a point by its discrete logarithm to the basepoint).
- `src/primitives.rs`: SHA-512 to a scalar and HKDF-SHA512 nonces.
- `src/oprf.rs`: `compute_oprf`, `verify_dleq`, `unblind_oprf`, and the proved laws
  (completeness of the proof, unblinding, determinism).
- `src/request.rs`, `src/provide.rs`, `src/program.rs`: what the request and fulfilment
  instructions accept, the request identifier, the callback data and the fees.
- `src/bytes.rs`, `src/consts.rs`: byte helpers and domain separators.
- `app/`: the instruction processors, which read and write Solana accounts and call
  the library for every decision.
- `tests/`: tests of the library on concrete values.
