//! X25519 key exchange through libcrux.

use rustls_libcrux_provider::kx::{KxError, NamedGroup, X25519};

fn clamp(rand: &[u8; 32]) -> [u8; 32] {
    let mut s = *rand;
    s[0] &= 248;
    s[31] &= 127;
    s[31] |= 64;
    s
}

#[test]
fn both_sides_derive_the_same_secret() {
    let a = X25519.start().unwrap();
    let b = X25519.start().unwrap();
    let a_pub = a.pub_key().to_vec();
    let b_pub = b.pub_key().to_vec();
    assert_eq!(a_pub.len(), 32);
    assert_ne!(a_pub, b_pub);
    let sa = a.complete(&b_pub).unwrap();
    let sb = b.complete(&a_pub).unwrap();
    assert_eq!(sa, sb);
}

#[test]
fn start_with_random_is_deterministic() {
    let rand = [0x5au8; 32];
    let a = X25519.start_with_random(rand).unwrap();
    let b = X25519.start_with_random(rand).unwrap();
    assert_eq!(a.pub_key(), b.pub_key());
    let other = X25519.start_with_random([0x5bu8; 32]).unwrap();
    assert_ne!(a.pub_key(), other.pub_key());
}

#[test]
fn random_octets_differing_only_in_clamped_bits_give_one_key() {
    let rand = [0x5au8; 32];
    let clamped = clamp(&rand);
    let a = X25519.start_with_random(rand).unwrap();
    let b = X25519.start_with_random(clamped).unwrap();
    assert_eq!(a.pub_key(), b.pub_key());
}

#[test]
fn rfc7748_public_values() {
    // RFC 7748, section 6.1: Alice's private key and public key.
    let alice_private: [u8; 32] = [
        0x77, 0x07, 0x6d, 0x0a, 0x73, 0x18, 0xa5, 0x7d, 0x3c, 0x16, 0xc1, 0x72, 0x51, 0xb2,
        0x66, 0x45, 0xdf, 0x4c, 0x2f, 0x87, 0xeb, 0xc0, 0x99, 0x2a, 0xb1, 0x77, 0xfb, 0xa5,
        0x1d, 0xb9, 0x2c, 0x2a,
    ];
    let alice_public: [u8; 32] = [
        0x85, 0x20, 0xf0, 0x09, 0x89, 0x30, 0xa7, 0x54, 0x74, 0x8b, 0x7d, 0xdc, 0xb4, 0x3e,
        0xf7, 0x5a, 0x0d, 0xbf, 0x3a, 0x0d, 0x26, 0x38, 0x1a, 0xf4, 0xeb, 0xa4, 0xa9, 0x8e,
        0xaa, 0x9b, 0x4e, 0x6a,
    ];
    let bob_public: [u8; 32] = [
        0xde, 0x9e, 0xdb, 0x7d, 0x7b, 0x7d, 0xc1, 0xb4, 0xd3, 0x5b, 0x61, 0xc2, 0xec, 0xe4,
        0x35, 0x37, 0x3f, 0x83, 0x43, 0xc8, 0x5b, 0x78, 0x67, 0x4d, 0xad, 0xfc, 0x7e, 0x14,
        0x6f, 0x88, 0x2b, 0x4f,
    ];
    let shared: [u8; 32] = [
        0x4a, 0x5d, 0x9d, 0x5b, 0xa4, 0xce, 0x2d, 0xe1, 0x72, 0x8e, 0x3b, 0xf4, 0x80, 0x35,
        0x0f, 0x25, 0xe0, 0x7e, 0x21, 0xc9, 0x47, 0xd1, 0x9e, 0x33, 0x76, 0xf0, 0x9b, 0x3c,
        0x1e, 0x16, 0x17, 0x42,
    ];
    let alice = X25519.start_with_random(alice_private).unwrap();
    assert_eq!(alice.pub_key(), &alice_public[..]);
    assert_eq!(alice.complete(&bob_public), Ok(shared));
}

#[test]
fn complete_refuses_a_peer_value_of_the_wrong_length() {
    let a = X25519.start().unwrap();
    assert_eq!(a.complete(&[9u8; 31]), Err(KxError::EcdhDerive));
    let a = X25519.start().unwrap();
    assert_eq!(a.complete(&[9u8; 33]), Err(KxError::EcdhDerive));
    let a = X25519.start().unwrap();
    assert_eq!(a.complete(&[]), Err(KxError::EcdhDerive));
}

#[test]
fn complete_refuses_an_all_zero_shared_secret() {
    let a = X25519.start().unwrap();
    assert_eq!(a.complete(&[0u8; 32]), Err(KxError::EcdhDerive));
}

#[test]
fn group_names() {
    assert_eq!(X25519.name(), NamedGroup::X25519);
    let a = X25519.start().unwrap();
    assert_eq!(a.group(), NamedGroup::X25519);
}

#[test]
fn public_value_is_the_base_point_multiple_of_the_secret() {
    let rand = [0x3cu8; 32];
    let secret = clamp(&rand);
    let mut expected = [0u8; 32];
    libcrux::algorithms::curve25519::secret_to_public(&mut expected, &secret);
    let kx = X25519.start_with_random(rand).unwrap();
    assert_eq!(kx.pub_key(), &expected[..]);
    let mut base_point = [0u8; 32];
    base_point[0] = 9;
    assert_eq!(kx.complete(&base_point), Ok(expected));
}
