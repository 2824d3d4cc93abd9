# Aggregated proof of balance

Many private balance checks become one proof, and one Soroban contract call verifies it. The rules
are a Verus library; the programs around it do the input and output.

## Claims and batches

A claim is a secret `balance` and `nonce` behind the commitment
`SHA-256(balance_le8 || nonce_le8)`, with `balance <= 1_000_000_000_000`. The guest program checks
up to 64 claims and reveals one value:

```text
agg_hash = SHA-256(n_le4 || commitment[0] || ... || commitment[n-1])
```

The contract accepts a proof `(A, B, C)` under the key `(alpha, beta, gamma, delta, IC)` where

```text
e(-A, B) * e(alpha, beta) * e(vk_x, gamma) * e(C, delta) == 1
vk_x = IC[0] + sum_i pub_input[i] * IC[i + 1]
```

## Layout

- `src/` is the library. All of it is verified but the wrappers listed below, whose contracts are
  taken on trust.
  - `witness.rs`, `batch.rs`, `public_inputs.rs`: claims, the guest program, its public output.
  - `contract.rs`, `history.rs`: the contract's transitions, and what holds over any run of them.
  - `cost.rs`: the cost model.
  - `bn254.rs`, `digest.rs`, `encoding.rs`, `random.rs`, `stream.rs`: the ground that these stand
    on, with the calls into soroban-sdk, sha2, hex, rand and openvm.
- `app/` holds the host program, the guest's entry point and the contract's storage, authorization
  and events.
- `tests/` runs the library on concrete values.

## What is taken on trust

Verus believes the contracts of these wrappers without a look at their bodies:

- `bn254.rs`: `g1_add`, `g1_mul`, `g1_neg` and `pairing_check` call soroban-sdk's host, which adds,
  multiplies and negates G1 points and answers pairing checks. A pairing check has a name,
  `pairing_product_is_one`, and no definition here. `host_protocol` asks the ledger for its
  protocol, and nothing is claimed of the answer.
- `digest.rs`: `sha256` calls sha2; the digest is a function of the message, `sha256_digest`.
- `encoding.rs`: `hex_encode` calls hex, which writes two lower-case digits for each byte.
- `random.rs`: `seed_generator`, `draw_in_range` and `draw_u64` call rand, whose seeded generator
  hands out words that its seed fixes.
- `stream.rs`: `serialize_u32`, `serialize_u64` and `serialize_bytes32` call openvm, which turns a
  value into 32-bit words, and `deserialize_u32`, `deserialize_u64` and `deserialize_bytes32` have
  it read the value back from the front of a list of words.

`ExEnv`, `ExStdRng` and `ExSerdeError` declare the outside types that these handle.

## Building the contract for the chain

Cargo.toml turns soroban-sdk's `testutils` feature on. Without it a native environment can lack a
ledger, and the host then aborts every call, `host_protocol` among them. On the chain an environment
always has its ledger; soroban-sdk refuses the feature there, so a build for wasm leaves it out.
