# licensing_client

A client library for license keys issued by a self-hosted licensing service,
written in Verus: the key format, its parsing, offline signature
verification and the decisions of the online calls are verified against
their contracts.

- `src/key.rs` — the `LIC1-<payload>-<signature>` key format: trimming and
  splitting the key string, Crockford base32 decoding (a `data-encoding`
  `Specification`), and decoding v1/v2 payloads with their entitlement lists.
- `src/pubkey.rs` — the issuer's Ed25519 public key (PEM or raw bytes,
  checked through `ed25519-dalek`).
- `src/verify.rs` — `Verifier`: signature, fingerprint and expiry checks;
  fingerprints are hashed with SHA-256 (`sha2`).
- `src/online.rs` — request/response types of the online endpoints, the
  endpoint URLs (through `url`) and the decision on a server reply.
- `src/format.rs` — the v2 payload format as an encoding, and its proved
  round trip with decoding.
- `src/text.rs` — whitespace trimming, searching and UUID/hex rendering.
- `src/error.rs` — the error type and its messages.
- `src/laws.rs` — proved properties that relate several functions.
- `app/` — the async HTTP client (`reqwest`, `serde_json`) built on the
  library, and copies of the library's types with `serde`/`thiserror`
  derives.
