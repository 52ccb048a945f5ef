# signer

A device signer built on OP-TEE: one ECDSA P-256 key pair, generated inside
the TEE on first use, held in secure storage and never exported. A client
reads the public key (`X || Y`, 64 bytes) or has a SHA-256 digest signed
(`r || s`, 64 bytes).

The library in `src/` is verified with Verus:

- `proto` — command identifiers and sizes shared by both sides.
- `tee` — the calls into the TEE Internal Core API (`optee_utee`): key
  objects, signing, secure storage. Their results depend on the TEE; what
  holds of every outcome is stated, with the state that decides which calls
  are allowed next, and every TEE call, with what was handed to it and what
  it answered, is recorded in a ghost log, over which the handlers'
  contracts say what a command did with the device's key.
- `keyblob` — the 104-byte key record: little-endian header, left-padded
  big-endian fields, the fail-closed check of a stored record.
- `keystore` — key generation, loading or first-boot creation, signing.
- `ta` — the TA's exact parameter contract per command, the checks it makes
  before touching the key, and the command handlers.
- `wire` — invocations as the client sends them and as the TA receives them.
- `text`, `client` — hex, decimal and JSON text; the client's command-line
  dispatch and its single JSON object per run.
- `probe` — the TA-boundary probe cases and their verdicts.

`app/` holds the programs around it: the client's `main` and its TEE client
calls (`optee_teec`), the TA entry points, and the probe's command line
(the same binary runs as the probe when invoked under the name `ta-probe`).
