# zk_verifier

Verified core of a private-note vault for Soroban, written in Verus.

- `src/zk/groth16.rs`: checks Groth16 proofs over BN254, one at a time or in batches. It decides
  which public inputs, sizes and points are acceptable, in which order they are refused, what is
  handed to the pairing check and how the answer is reported.
- `src/zk/note.rs`: note commitments and the accumulator of their leaves.
- `src/vaults.rs`: how long vault balances are kept alive.
- `src/curve.rs`: points and scalars as bytes, and when they are valid.
- `src/bytes.rs`: byte strings as big-endian numbers.
- `src/host.rs`: the calls into the Soroban host, with the contracts that are relied on.
- `app/`: the contracts around the library, with storage, events and ledger types.
- `tests/`: runs the library against the real host.

A note's commitment is the byte-wise exclusive or of its components. It binds each component
given the other three, and nothing more is claimed of it.

A proof is valid when `e(A, B) == e(alpha, beta) * e(inputs, gamma) * e(C, delta)`, where `inputs`
is the sum of the key's `ic` elements weighted by the public inputs. The key holds `e(alpha, beta)`
as `alpha_beta`, the G2 point whose pairing with the generator of G1 is that value, so that the
product which is checked to be one is
`e(A, B) * e(-inputs, gamma) * e(-C, delta) * e(-G, alpha_beta)`.

The library builds for native targets only, not for wasm. It reads the instruction meter and has
G2 points checked through `env.host()` of `soroban-sdk`, which exists only outside wasm and under
the feature `testutils`; `soroban-env-host` is there for the pairing call that reports an
unacceptable point as an error in place of ending the invocation. The contracts in `app/` run on
a native host, and as they stand they cannot be deployed.
