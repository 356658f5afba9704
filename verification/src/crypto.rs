//! The calls into libcrux and into the operating system's random source.
//!
//! The contracts of the functions here are assumed, and their bodies are
//! not verified. Where libcrux's result takes pages to state (the curve
//! arithmetic, signature verification), the contract gives it a name and ties
//! it to every argument; where the source shows a short fact, the contract
//! states it.
use vstd::prelude::*;

use libcrux::algorithms::{curve25519, ecdsa, ed25519, rsapss};
use libcrux_traits::ecdh::owned::EcdhOwned;
use rand_core::TryRngCore;

use crate::verify::{EcdsaDigestAlgorithm, RsaPssDigestAlgorithm};

verus! {

/// libcrux's X25519 secret from 32 random octets: the octets with the three
/// low bits of the first cleared, the high bit of the last cleared and its
/// second-highest bit set.
pub open spec fn x25519_clamp(rand: Seq<u8>) -> Seq<u8> {
    rand.update(0, rand[0] & 248u8).update(31, (rand[31] & 127u8) | 64u8)
}

/// The X25519 function as libcrux's `scalarmult` computes it: the
/// u-coordinate (32 octets, little-endian) of the product of the point with
/// u-coordinate `point` and the scalar `scalar`.
pub uninterp spec fn x25519_scalarmult(scalar: Seq<u8>, point: Seq<u8>) -> Seq<u8>;

/// The u-coordinate of the X25519 base point: 9.
pub open spec fn x25519_base_point() -> Seq<u8> {
    seq![9u8].add(Seq::new(31, |i: int| 0u8))
}

/// The X25519 public value of `secret`: its multiple of the base point, as
/// libcrux's `secret_to_public` computes it.
pub open spec fn x25519_public_key(secret: Seq<u8>) -> Seq<u8> {
    x25519_scalarmult(secret, x25519_base_point())
}

/// The shared secret that libcrux derives from the peer's public value and
/// our secret: their product, or `None` where it is all zero.
pub open spec fn x25519_shared_secret(public: Seq<u8>, secret: Seq<u8>) -> Option<Seq<u8>> {
    let product = x25519_scalarmult(secret, public);
    if product == Seq::new(32, |i: int| 0u8) {
        None
    } else {
        Some(product)
    }
}

/// The 64-octet `X || Y` coordinates that libcrux reads from an encoded
/// P-256 public key (uncompressed, compressed or raw), or `None` where it
/// refuses the encoding or the point.
pub uninterp spec fn p256_public_key_coordinates(encoded: Seq<u8>) -> Option<Seq<u8>>;

/// Whether libcrux accepts `(r, s)` as an ECDSA P-256 signature over
/// `message` with hash `digest`, under the public key `public_key`
/// (coordinates `X || Y`).
pub uninterp spec fn p256_signature_valid(
    digest: EcdsaDigestAlgorithm,
    message: Seq<u8>,
    r: Seq<u8>,
    s: Seq<u8>,
    public_key: Seq<u8>,
) -> bool;

/// Whether libcrux accepts `signature` as an Ed25519 signature over
/// `message` under `public_key`.
pub uninterp spec fn ed25519_signature_valid(
    message: Seq<u8>,
    public_key: Seq<u8>,
    signature: Seq<u8>,
) -> bool;

/// Whether libcrux accepts `signature` as an RSA-PSS signature over
/// `message` with hash `digest` and salt length `salt_len`, under the public
/// key with modulus `modulus` (and exponent 65537).
pub uninterp spec fn rsa_pss_signature_valid(
    digest: RsaPssDigestAlgorithm,
    modulus: Seq<u8>,
    message: Seq<u8>,
    salt_len: u32,
    signature: Seq<u8>,
) -> bool;

/// The length in octets of the digest of `digest`.
pub open spec fn rsa_pss_hash_len(digest: RsaPssDigestAlgorithm) -> nat {
    match digest {
        RsaPssDigestAlgorithm::Sha2_256 => 32,
        RsaPssDigestAlgorithm::Sha2_384 => 48,
        RsaPssDigestAlgorithm::Sha2_512 => 64,
    }
}

/// Whether libcrux takes a modulus of `len` octets as an RSA public key
/// (`VarLenPublicKey::try_from`).
pub open spec fn rsa_modulus_len_supported(len: nat) -> bool {
    len == 256 || len == 384 || len == 512 || len == 768 || len == 1024
}

/// Fills 32 octets from the operating system's random source
/// (`rand_core::OsRng::try_fill_bytes`); `None` where the source fails.
/// Nothing is stated of the octets.
#[verifier::external_body]
pub(crate) fn os_random_32() -> (res: Option<[u8; 32]>) {
    let mut rand = [0u8; 32];
    match rand_core::OsRng.try_fill_bytes(&mut rand) {
        Ok(()) => Some(rand),
        Err(_) => None,
    }
}

/// `curve25519::X25519::generate_pair`: the source copies `rand` into the
/// secret, clamps it and computes its public value with `secret_to_public`,
/// which is `scalarmult` of the secret and the base point; neither step can
/// fail.
#[verifier::external_body]
pub(crate) fn x25519_generate_pair(rand: &[u8; 32]) -> (res: Option<([u8; 32], [u8; 32])>)
    ensures
        res is Some,
        res.unwrap().0@ == x25519_scalarmult(x25519_clamp(rand@), x25519_base_point()),
        res.unwrap().1@ == x25519_clamp(rand@),
{
    match curve25519::X25519::generate_pair(rand) {
        Ok((public, secret)) => Some((public, secret)),
        Err(_) => None,
    }
}

/// `curve25519::X25519::derive_ecdh`: the source's `ecdh` computes
/// `scalarmult` of our secret and the peer's public value, and fails where
/// the result is all zero (`x25519_shared_secret`).
#[verifier::external_body]
pub(crate) fn x25519_derive_ecdh(public: &[u8; 32], secret: &[u8; 32]) -> (res: Option<[u8; 32]>)
    ensures
        x25519_scalarmult(secret@, public@) == Seq::new(32, |i: int| 0u8) ==> res is None,
        x25519_scalarmult(secret@, public@) != Seq::new(32, |i: int| 0u8) ==> res is Some
            && res.unwrap()@ == x25519_scalarmult(secret@, public@),
{
    match curve25519::X25519::derive_ecdh(public, secret) {
        Ok(derived) => Some(derived),
        Err(_) => None,
    }
}

/// `ecdsa::p256::PublicKey::try_from(&[u8])`: the key's coordinates as
/// named by `p256_public_key_coordinates`; the source refuses an empty
/// input first.
#[verifier::external_body]
pub(crate) fn p256_public_key(encoded: &[u8]) -> (res: Option<[u8; 64]>)
    ensures
        match p256_public_key_coordinates(encoded@) {
            Some(k) => res matches Some(out) && out@ == k,
            None => res is None,
        },
        encoded.len() == 0 ==> res is None,
{
    match ecdsa::p256::PublicKey::try_from(encoded) {
        Ok(public_key) => Some(public_key.0),
        Err(_) => None,
    }
}

/// `ecdsa::p256::verify` on `Signature::from_raw(r, s)` and the public key
/// with coordinates `public_key`: whether it returns `Ok`, as named by
/// `p256_signature_valid`. The source refuses SHA-224 and messages longer
/// than `u32::MAX` octets.
#[verifier::external_body]
pub(crate) fn p256_verify(
    digest: EcdsaDigestAlgorithm,
    message: &[u8],
    r: [u8; 32],
    s: [u8; 32],
    public_key: [u8; 64],
) -> (res: bool)
    ensures
        res == p256_signature_valid(digest, message@, r@, s@, public_key@),
        digest is Sha224 ==> !res,
        message.len() > u32::MAX ==> !res,
{
    let alg = match digest {
        EcdsaDigestAlgorithm::Sha224 => ecdsa::DigestAlgorithm::Sha224,
        EcdsaDigestAlgorithm::Sha256 => ecdsa::DigestAlgorithm::Sha256,
        EcdsaDigestAlgorithm::Sha384 => ecdsa::DigestAlgorithm::Sha384,
        EcdsaDigestAlgorithm::Sha512 => ecdsa::DigestAlgorithm::Sha512,
    };
    let signature = ecdsa::p256::Signature::from_raw(r, s);
    ecdsa::p256::verify(alg, message, &signature, &ecdsa::p256::PublicKey(public_key)).is_ok()
}

/// `ed25519::verify`: whether it returns `Ok`, as named by
/// `ed25519_signature_valid`. The source refuses messages longer than
/// `u32::MAX` octets.
#[verifier::external_body]
pub(crate) fn ed25519_verify(message: &[u8], public_key: &[u8; 32], signature: &[u8; 64]) -> (res: bool)
    ensures
        res == ed25519_signature_valid(message@, public_key@, signature@),
        message.len() > u32::MAX ==> !res,
{
    ed25519::verify(message, public_key, signature).is_ok()
}

/// `rsapss::verify` under `VarLenPublicKey::try_from(modulus)` (which
/// accepts exactly the lengths of `rsa_modulus_len_supported`): whether it
/// returns `Ok`, as named by `rsa_pss_signature_valid`. The source refuses a
/// signature whose length is not the modulus's, a message longer than
/// `u32::MAX` octets, and a salt length above `u32::MAX` less the hash
/// length less 8.
#[verifier::external_body]
pub(crate) fn rsa_pss_verify(
    digest: RsaPssDigestAlgorithm,
    modulus: &[u8],
    message: &[u8],
    salt_len: u32,
    signature: &[u8],
) -> (res: bool)
    requires
        rsa_modulus_len_supported(modulus.len() as nat),
    ensures
        res == rsa_pss_signature_valid(digest, modulus@, message@, salt_len, signature@),
        signature.len() != modulus.len() ==> !res,
        message.len() > u32::MAX ==> !res,
        salt_len + rsa_pss_hash_len(digest) + 8 > u32::MAX ==> !res,
{
    let alg = match digest {
        RsaPssDigestAlgorithm::Sha2_256 => rsapss::DigestAlgorithm::Sha2_256,
        RsaPssDigestAlgorithm::Sha2_384 => rsapss::DigestAlgorithm::Sha2_384,
        RsaPssDigestAlgorithm::Sha2_512 => rsapss::DigestAlgorithm::Sha2_512,
    };
    match rsapss::VarLenPublicKey::try_from(modulus) {
        Ok(public_key) => rsapss::verify(alg, &public_key, message, salt_len, signature).is_ok(),
        Err(_) => false,
    }
}

} // verus!
