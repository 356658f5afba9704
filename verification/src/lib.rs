//! Verified core of a libcrux-backed crypto provider for rustls: X25519 key
//! exchange and signature verification (ECDSA P-256, Ed25519, RSA-PSS),
//! with the DER decoding that verification needs.
pub mod crypto;
pub mod der;
pub mod kx;
pub mod verify;
