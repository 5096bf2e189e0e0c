# agenc_prover

Verified core of the AgenC private task completion prover, written in Verus.

- `src/journal.rs` — journal fields, private witness, the field-element
  hashes that bind them (constraint hash, output commitment, binding,
  nullifier), witness validation and the 192-byte journal layout.
- `src/seal.rs` — the router seal: selector prefix and BN254 `pi_a` negation.
- `src/prover.rs` — proving requests, the pinned guest image id, the checks
  made before proving and on a receipt's output, and error texts.
- `src/service.rs` — request decoding, error answers, bearer-token
  authorization, configuration parsing, execution policy and the
  fixed-window rate limiter.
- `src/bytes.rs`, `src/text.rs`, `src/strings.rs` — big-endian numbers,
  decimal rendering, and string helpers, with their lemmas.
- `src/external.rs` — the trusted wrappers around `sha2` and `num-bigint`.
- `app/main.rs` — the axum HTTP service around the library.

The zkVM proving call itself is not part of this build: it needs the guest
image and the risc0 prover. `generate_proof_with_dev_mode` therefore answers
with build guidance once a request has passed its checks.
