# solana-groth16-verify

Groth16 (BN254) verification for Solana and the account logic of a
circuit-agnostic key registry, with its behaviour stated in Verus contracts
and proved.

- `src/` — the verified library.
  - `constants`, `scalar`, `groth16_proof`, `verifying_key`: the wire format
    (sizes, offsets, big-endian scalars, proof and key views).
  - `syscall`: the three `alt_bn128` group operations, through `solana-bn254`.
  - `groth16_verifier`, `validation`: `L = IC₀ + Σ aᵢ·ICᵢ`, the four-pair
    pairing check, and the registration-time key validation.
  - `state`: key and staging account headers.
  - `processor`: the program's five instructions over a plain account model
    (`InitializeStaging`, `Write`, `Publish`, `Verify`, `CloseStaging`), with
    the laws they keep.
  - `instruction`, `address`: client-side instruction builders, the key hash
    and the canonical key address.
- `app/` — runtime glue: copies the runtime's accounts into the model, runs the
  processors, writes the changes back, performs `Publish`'s system-program
  calls, and converts instructions to `solana_instruction`.
- `tests/` — the layout, verifier, instruction and program tests.
