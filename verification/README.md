# rustls-libcrux-provider

The verified core of a libcrux-backed crypto provider for rustls.

- `src/kx.rs`: X25519 key exchange (key pair from random octets, shared secret).
- `src/verify.rs`: ECDSA P-256, Ed25519 and RSA-PSS signature verification, the
  normalization of DER integers into 32-octet scalars, and the algorithm identifiers.
- `src/der.rs`: the DER decoders that verification needs, with their specification and
  round-trip and uniqueness lemmas.
- `src/crypto.rs`: the trusted calls into libcrux and the operating system's random source.
- `app/lib.rs`: the rustls trait impls and static algorithm tables around the library.

`tests/` runs the library against libcrux signatures and key exchanges, and compares the
DER decoders with the `der` crate.
