//! X25519 key exchange: a fresh key pair from random octets, and the shared
//! secret with the peer's public value.
use vstd::prelude::*;

use crate::crypto::{
    os_random_32, x25519_clamp, x25519_derive_ecdh, x25519_generate_pair,
    x25519_public_key, x25519_shared_secret, x25519_scalarmult, x25519_base_point,
};

verus! {

/// The key exchange groups of this crate.
#[derive(Clone, Copy, Debug, PartialEq, Eq, Structural)]
pub enum NamedGroup {
    X25519,
}

/// Why a key exchange could not start or complete.
#[derive(Clone, Copy, Debug, PartialEq, Eq, Structural)]
pub enum KxError {
    /// The peer's public value was not 32 octets, or the shared secret could
    /// not be derived from it.
    EcdhDerive,
    /// No key pair could be made from the random octets.
    EcdhKeygen,
    /// The random source failed.
    FailedToGetRandomBytes,
}

/// An X25519 secret is clamped: the three low bits of its first octet are
/// clear, the high bit of its last octet is clear and the next one is set.
pub open spec fn x25519_is_clamped(secret: Seq<u8>) -> bool {
    &&& secret.len() == 32
    &&& secret[0] & 7u8 == 0u8
    &&& secret[31] & 128u8 == 0u8
    &&& secret[31] & 64u8 == 64u8
}

/// The key pair that a key exchange made from the random octets `rand`.
pub open spec fn pair_from_random(secret: Seq<u8>, public: Seq<u8>, rand: Seq<u8>) -> bool {
    &&& rand.len() == 32
    &&& secret == x25519_clamp(rand)
    &&& public == x25519_public_key(secret)
}

/// One side of an X25519 key exchange in progress: our key pair.
pub struct X25519KeyExchange {
    priv_key: [u8; 32],
    pub_key: [u8; 32],
}

impl X25519KeyExchange {
    /// Every key exchange holds a clamped secret and its public value.
    #[verifier::type_invariant]
    spec fn key_pair_valid(&self) -> bool {
        &&& x25519_is_clamped(self.priv_key@)
        &&& self.pub_key@ == x25519_public_key(self.priv_key@)
    }

    /// Our secret.
    pub closed spec fn secret(&self) -> Seq<u8> {
        self.priv_key@
    }

    /// Our public value.
    pub closed spec fn public(&self) -> Seq<u8> {
        self.pub_key@
    }

    /// Completes the exchange with the peer's public value: the shared
    /// secret.
    pub fn complete(self, peer: &[u8]) -> (res: Result<[u8; 32], KxError>)
        ensures
            peer.len() != 32 ==> res == Err::<[u8; 32], KxError>(KxError::EcdhDerive),
            peer.len() == 32 ==> match x25519_shared_secret(peer@, self.secret()) {
                Some(ss) => res matches Ok(out) && out@ == ss,
                None => res == Err::<[u8; 32], KxError>(KxError::EcdhDerive),
            },
    {
        if peer.len() != 32 {
            return Err(KxError::EcdhDerive);
        }
        let mut public = [0u8; 32];
        let mut i: usize = 0;
        while i < 32
            invariant
                peer@.len() == 32,
                public@.len() == 32,
                i <= 32,
                forall|j: int| 0 <= j < i ==> public@[j] == peer@[j],
            decreases 32 - i,
        {
            public[i] = peer[i];
            i += 1;
        }
        assert(public@ =~= peer@);
        match x25519_derive_ecdh(&public, &self.priv_key) {
            Some(shared_secret) => Ok(shared_secret),
            None => Err(KxError::EcdhDerive),
        }
    }

    /// Our public value, to send to the peer: the base-point multiple of our
    /// secret.
    pub fn pub_key(&self) -> (res: &[u8])
        ensures
            res@ == self.public(),
            res@.len() == 32,
            res@ == x25519_public_key(self.secret()),
    {
        proof {
            use_type_invariant(self);
        }
        self.pub_key.as_slice()
    }

    /// The group of this exchange.
    pub fn group(&self) -> (res: NamedGroup)
        ensures
            res == NamedGroup::X25519,
    {
        X25519.name()
    }
}

/// The X25519 key exchange group.
#[derive(Clone, Copy, Debug)]
pub struct X25519;

proof fn lemma_clamp_is_clamped(rand: Seq<u8>)
    requires
        rand.len() == 32,
    ensures
        x25519_is_clamped(x25519_clamp(rand)),
{
    let a = rand[0];
    let b = rand[31];
    assert((a & 248u8) & 7u8 == 0u8) by (bit_vector);
    assert(((b & 127u8) | 64u8) & 128u8 == 0u8) by (bit_vector);
    assert(((b & 127u8) | 64u8) & 64u8 == 64u8) by (bit_vector);
}

/// Clamping changes only the three low bits of the first octet and the
/// two high bits of the last: every other octet of the random input is
/// the secret's.
pub proof fn lemma_clamp_octets(rand: Seq<u8>)
    requires
        rand.len() == 32,
    ensures
        x25519_clamp(rand).len() == 32,
        x25519_clamp(rand)[0] == rand[0] & 248u8,
        x25519_clamp(rand)[31] == (rand[31] & 127u8) | 64u8,
        forall|i: int| 1 <= i <= 30 ==> #[trigger] x25519_clamp(rand)[i] == rand[i],
{
}

/// Two random inputs that agree outside the clamped bits give the same
/// secret, and inputs that differ anywhere else give different secrets.
pub proof fn lemma_clamp_injective_outside_clamped_bits(a: Seq<u8>, b: Seq<u8>)
    requires
        a.len() == 32,
        b.len() == 32,
    ensures
        x25519_clamp(a) == x25519_clamp(b) <==> (a[0] & 248u8 == b[0] & 248u8 && a[31] & 63u8
            == b[31] & 63u8 && forall|i: int| 1 <= i <= 30 ==> #[trigger] a[i] == b[i]),
{
    lemma_clamp_octets(a);
    lemma_clamp_octets(b);
    let x = a[31];
    let y = b[31];
    assert(((x & 127u8) | 64u8 == (y & 127u8) | 64u8) <==> (x & 63u8 == y & 63u8)) by (bit_vector);
    if x25519_clamp(a) == x25519_clamp(b) {
        assert forall|i: int| 1 <= i <= 30 implies #[trigger] a[i] == b[i] by {
            assert(x25519_clamp(a)[i] == x25519_clamp(b)[i]);
        }
        assert(x25519_clamp(a)[0] == x25519_clamp(b)[0]);
        assert(x25519_clamp(a)[31] == x25519_clamp(b)[31]);
    }
    if a[0] & 248u8 == b[0] & 248u8 && a[31] & 63u8 == b[31] & 63u8 && forall|i: int|
        1 <= i <= 30 ==> #[trigger] a[i] == b[i] {
        assert(x25519_clamp(a) =~= x25519_clamp(b));
    }
}

impl X25519 {
    /// Starts an exchange from the 32 random octets `rand`: the key pair
    /// that libcrux makes from them.
    pub fn start_with_random(&self, rand: [u8; 32]) -> (res: Result<X25519KeyExchange, KxError>)
        ensures
            res matches Ok(kx) && pair_from_random(kx.secret(), kx.public(), rand@),
            res matches Ok(kx) ==> x25519_is_clamped(kx.secret()),
            res matches Ok(kx) ==> kx.secret().len() == 32 && kx.secret()[0] == rand[0] & 248u8
                && kx.secret()[31] == (rand[31] & 127u8) | 64u8 && forall|i: int|
                1 <= i <= 30 ==> #[trigger] kx.secret()[i] == rand@[i],
            res matches Ok(kx) ==> kx.public() == x25519_scalarmult(
                kx.secret(),
                x25519_base_point(),
            ),
    {
        proof {
            lemma_clamp_is_clamped(rand@);
            lemma_clamp_octets(rand@);
        }
        match x25519_generate_pair(&rand) {
            Some((pub_key, priv_key)) => Ok(X25519KeyExchange { pub_key, priv_key }),
            None => Err(KxError::EcdhKeygen),
        }
    }

    /// Starts an exchange with a fresh key pair from the operating system's
    /// random source.
    pub fn start(&self) -> (res: Result<X25519KeyExchange, KxError>)
        ensures
            res matches Ok(kx) ==> exists|rand: Seq<u8>|
                #[trigger] pair_from_random(kx.secret(), kx.public(), rand),
            res matches Ok(kx) ==> x25519_is_clamped(kx.secret()),
            res is Err ==> res == Err::<X25519KeyExchange, KxError>(
                KxError::FailedToGetRandomBytes,
            ),
    {
        let rand = match os_random_32() {
            Some(r) => r,
            None => return Err(KxError::FailedToGetRandomBytes),
        };
        self.start_with_random(rand)
    }

    /// The name of this group.
    pub fn name(&self) -> (res: NamedGroup)
        ensures
            res == NamedGroup::X25519,
    {
        NamedGroup::X25519
    }
}

} // verus!
