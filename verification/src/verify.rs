//! Signature verification for the certificate and handshake signatures of
//! TLS: ECDSA P-256, Ed25519 and RSA-PSS, each with the algorithm
//! identifiers it answers to.
use vstd::prelude::*;

use crate::crypto::{
    ed25519_signature_valid, ed25519_verify, p256_public_key, p256_public_key_coordinates,
    p256_signature_valid, p256_verify, rsa_modulus_len_supported, rsa_pss_signature_valid,
    rsa_pss_verify,
};
use crate::der::{
    be_value, decode_rsa_public_key, encode_integer_pair, lemma_ecdsa_sig_value_roundtrip,
    lemma_rsa_public_key_roundtrip, MAX_DER_LENGTH, int_canonical, spec_ecdsa_sig_value, spec_rsa_public_key,
    uint_magnitude, DerEcdsaSignature,
};

verus! {

/// A hash for ECDSA, as libcrux names them.
#[derive(Clone, Copy, Debug, PartialEq, Eq, Structural)]
pub enum EcdsaDigestAlgorithm {
    Sha224,
    Sha256,
    Sha384,
    Sha512,
}

/// A hash for RSA-PSS, as libcrux names them.
#[derive(Clone, Copy, Debug, PartialEq, Eq, Structural)]
pub enum RsaPssDigestAlgorithm {
    Sha2_256,
    Sha2_384,
    Sha2_512,
}

/// The ASN.1 algorithm identifiers that a verifier answers to, for the
/// public key and for the signature.
#[derive(Clone, Copy, Debug, PartialEq, Eq, Structural)]
pub enum AlgorithmId {
    EcdsaP256,
    EcdsaSha256,
    EcdsaSha384,
    EcdsaSha512,
    Ed25519,
    RsaEncryption,
    RsaPssSha256,
    RsaPssSha384,
    RsaPssSha512,
}

/// A signature does not verify, or an input could not be read.
#[derive(Clone, Copy, Debug, PartialEq, Eq, Structural)]
pub struct InvalidSignature;

/// ECDSA on P-256. The hash names the signature algorithm identifier; the
/// verification itself hashes with SHA-256.
#[derive(Clone, Copy, Debug)]
pub struct EcdsaP256Verify(pub EcdsaDigestAlgorithm);

/// Ed25519.
#[derive(Clone, Copy, Debug)]
pub struct Ed25519Verify;

/// RSA-PSS with a hash and a salt length in octets.
#[derive(Clone, Copy, Debug)]
pub struct RsaPssVerify(pub RsaPssDigestAlgorithm, pub usize);

/// `n` zero octets.
pub open spec fn zeros(n: nat) -> Seq<u8> {
    Seq::new(n, |i: int| 0u8)
}

/// A DER `INTEGER`'s contents as a 32-octet big-endian scalar: one leading
/// `0x00` (the sign octet) is dropped, what is left is padded with leading
/// zeros to 32 octets; more than 32 octets left is refused.
pub open spec fn spec_scalar_to_fixed_32(bytes: Seq<u8>) -> Option<Seq<u8>> {
    let b = if bytes.len() > 0 && bytes[0] == 0 {
        bytes.drop_first()
    } else {
        bytes
    };
    if b.len() > 32 {
        None
    } else {
        Some(zeros((32 - b.len()) as nat) + b)
    }
}

/// The RSA modulus that an RSA public key in DER carries, where its
/// exponent is 65537 and libcrux takes its length.
pub open spec fn spec_spki_modulus(spki_spk: Seq<u8>) -> Option<Seq<u8>> {
    match spec_rsa_public_key(spki_spk) {
        Some((n, e)) => if e == seq![1u8, 0u8, 1u8] && rsa_modulus_len_supported(n.len()) {
            Some(n)
        } else {
            None
        },
        None => None,
    }
}

/// Whether ECDSA P-256 verification accepts `signature` (DER) over `message`
/// under `public_key`: both integers fit 32 octets, libcrux reads the key,
/// and libcrux accepts the signature with SHA-256.
pub open spec fn ecdsa_p256_accepts(public_key: Seq<u8>, message: Seq<u8>, signature: Seq<u8>) -> bool {
    match spec_ecdsa_sig_value(signature) {
        Some((r, s)) => match (spec_scalar_to_fixed_32(r), spec_scalar_to_fixed_32(s)) {
            (Some(rf), Some(sf)) => match p256_public_key_coordinates(public_key) {
                Some(k) => p256_signature_valid(EcdsaDigestAlgorithm::Sha256, message, rf, sf, k),
                None => false,
            },
            _ => false,
        },
        None => false,
    }
}

/// Whether Ed25519 verification accepts: a 32-octet key, a 64-octet signature,
/// and libcrux accepts it.
pub open spec fn ed25519_accepts(public_key: Seq<u8>, message: Seq<u8>, signature: Seq<u8>) -> bool {
    public_key.len() == 32 && signature.len() == 64 && ed25519_signature_valid(
        message,
        public_key,
        signature,
    )
}

/// Whether RSA-PSS verification with `digest` and `salt_len` accepts: the salt
/// length fits 32 bits, the key decodes to a supported modulus with exponent
/// 65537, and libcrux accepts the signature.
pub open spec fn rsa_pss_accepts(
    digest: RsaPssDigestAlgorithm,
    salt_len: usize,
    public_key: Seq<u8>,
    message: Seq<u8>,
    signature: Seq<u8>,
) -> bool {
    salt_len <= u32::MAX && match spec_spki_modulus(public_key) {
        Some(n) => rsa_pss_signature_valid(digest, n, message, salt_len as u32, signature),
        None => false,
    }
}

/// `x` without its leading zero octets, keeping at least one octet.
pub open spec fn strip_leading_zeros(x: Seq<u8>) -> Seq<u8>
    decreases x.len(),
{
    if x.len() > 1 && x[0] == 0 {
        strip_leading_zeros(x.drop_first())
    } else {
        x
    }
}

/// The contents of the DER `INTEGER` whose value is the unsigned big-endian
/// `x`: its shortest form, with a `0x00` in front where the high bit is set.
pub open spec fn der_uint_contents(x: Seq<u8>) -> Seq<u8> {
    let t = strip_leading_zeros(x);
    if t.len() > 0 && t[0] >= 0x80 {
        seq![0u8] + t
    } else {
        t
    }
}

proof fn lemma_strip_leading_zeros(x: Seq<u8>)
    requires
        x.len() >= 1,
    ensures
        ({
            let t = strip_leading_zeros(x);
            &&& 1 <= t.len() <= x.len()
            &&& x == zeros((x.len() - t.len()) as nat) + t
            &&& (t.len() > 1 ==> t[0] != 0)
        }),
    decreases x.len(),
{
    if x.len() > 1 && x[0] == 0 {
        let y = x.drop_first();
        lemma_strip_leading_zeros(y);
        let t = strip_leading_zeros(y);
        let k = (y.len() - t.len()) as nat;
        assert(x =~= seq![0u8] + y);
        assert(zeros(k + 1) =~= seq![0u8] + zeros(k));
        assert(x =~= zeros(k + 1) + t);
    } else {
        assert(x =~= zeros(0) + x);
    }
}

proof fn lemma_be_value_zeros(k: nat)
    ensures
        be_value(zeros(k)) == 0,
    decreases k,
{
    if k > 0 {
        assert(zeros(k).drop_last() =~= zeros((k - 1) as nat));
        lemma_be_value_zeros((k - 1) as nat);
    }
}

/// Leading zero octets do not change a big-endian value.
pub proof fn lemma_be_value_leading_zeros(k: nat, y: Seq<u8>)
    ensures
        be_value(zeros(k) + y) == be_value(y),
    decreases y.len(),
{
    if y.len() == 0 {
        assert(zeros(k) + y =~= zeros(k));
        lemma_be_value_zeros(k);
    } else {
        assert((zeros(k) + y).drop_last() =~= zeros(k) + y.drop_last());
        lemma_be_value_leading_zeros(k, y.drop_last());
    }
}

/// Normalizing an integer's contents to 32 octets keeps its value.
pub proof fn lemma_scalar_to_fixed_32_keeps_value(bytes: Seq<u8>)
    requires
        spec_scalar_to_fixed_32(bytes) is Some,
    ensures
        be_value(spec_scalar_to_fixed_32(bytes).unwrap()) == be_value(bytes),
{
    let b = if bytes.len() > 0 && bytes[0] == 0 {
        bytes.drop_first()
    } else {
        bytes
    };
    lemma_be_value_leading_zeros((32 - b.len()) as nat, b);
    if bytes.len() > 0 && bytes[0] == 0 {
        assert(bytes =~= zeros(1) + b);
        lemma_be_value_leading_zeros(1, b);
    }
}

/// Every 32-octet scalar, in whichever form DER writes it (a sign octet in
/// front, or leading zeros left out), is a canonical `INTEGER` and is
/// normalized back to exactly itself.
pub proof fn lemma_scalar_roundtrip(x: Seq<u8>)
    requires
        x.len() == 32,
    ensures
        int_canonical(der_uint_contents(x)),
        spec_scalar_to_fixed_32(der_uint_contents(x)) == Some(x),
{
    lemma_strip_leading_zeros(x);
    let t = strip_leading_zeros(x);
    let c = der_uint_contents(x);
    if t[0] >= 0x80 {
        assert(c.drop_first() =~= t);
    } else if t[0] == 0 {
        assert(t.len() == 1);
        assert(c.drop_first() =~= Seq::<u8>::empty());
        assert(zeros(32) + Seq::<u8>::empty() =~= x);
    }
}

/// The magnitude that an unsigned `INTEGER` read gives back from the DER
/// contents of `x` is `x` without its leading zero octets.
pub proof fn lemma_uint_roundtrip(x: Seq<u8>)
    requires
        x.len() >= 1,
    ensures
        uint_magnitude(der_uint_contents(x)) == Some(strip_leading_zeros(x)),
{
    lemma_strip_leading_zeros(x);
    let t = strip_leading_zeros(x);
    let c = der_uint_contents(x);
    if t[0] >= 0x80 {
        assert(c.drop_first() =~= t);
    }
}

/// ECDSA P-256 verification reads any DER encoding of a signature `(r, s)`
/// (whatever follows it) exactly as libcrux's verification of the raw `(r, s)`:
/// no signature is refused for the way DER writes its integers.
pub proof fn lemma_ecdsa_accepts_der_signature(
    public_key: Seq<u8>,
    message: Seq<u8>,
    r: Seq<u8>,
    s: Seq<u8>,
    rest: Seq<u8>,
)
    requires
        r.len() == 32,
        s.len() == 32,
        encode_integer_pair(der_uint_contents(r), der_uint_contents(s)).len() + rest.len()
            <= MAX_DER_LENGTH,
    ensures
        ecdsa_p256_accepts(
            public_key,
            message,
            encode_integer_pair(der_uint_contents(r), der_uint_contents(s)) + rest,
        ) == match p256_public_key_coordinates(public_key) {
            Some(k) => p256_signature_valid(EcdsaDigestAlgorithm::Sha256, message, r, s, k),
            None => false,
        },
{
    lemma_scalar_roundtrip(r);
    lemma_scalar_roundtrip(s);
    lemma_ecdsa_sig_value_roundtrip(der_uint_contents(r), der_uint_contents(s), rest);
}

/// The RSA public key material that DER writes for a modulus `n` of a
/// supported length (no leading zero octet) and the exponent 65537 decodes
/// to `n`, whatever follows it; RSA-PSS verification is then libcrux's
/// under `n`.
pub proof fn lemma_rsa_public_key_decodes(
    digest: RsaPssDigestAlgorithm,
    salt_len: usize,
    n: Seq<u8>,
    rest: Seq<u8>,
    message: Seq<u8>,
    signature: Seq<u8>,
)
    requires
        rsa_modulus_len_supported(n.len()),
        n[0] != 0,
        salt_len <= u32::MAX,
        encode_integer_pair(der_uint_contents(n), der_uint_contents(seq![1u8, 0u8, 1u8])).len()
            + rest.len() <= MAX_DER_LENGTH,
    ensures
        ({
            let key = encode_integer_pair(
                der_uint_contents(n),
                der_uint_contents(seq![1u8, 0u8, 1u8]),
            ) + rest;
            &&& spec_spki_modulus(key) == Some(n)
            &&& rsa_pss_accepts(digest, salt_len, key, message, signature)
                == rsa_pss_signature_valid(digest, n, message, salt_len as u32, signature)
        }),
{
    let e = seq![1u8, 0u8, 1u8];
    lemma_uint_roundtrip(n);
    lemma_uint_roundtrip(e);
    assert(strip_leading_zeros(n) == n);
    assert(strip_leading_zeros(e) == e);
    lemma_rsa_public_key_roundtrip(der_uint_contents(n), der_uint_contents(e), rest);
}

/// Normalizes a DER `INTEGER`'s contents into a fixed-length 32-octet
/// big-endian scalar, as the raw P-256 signature form requires.
///
/// DER may prepend a `0x00` sign octet when the high bit is set (33 octets)
/// or omit leading zero octets of small values (fewer than 32); both come
/// back as exactly 32 octets.
pub fn scalar_to_fixed_32(bytes: &[u8]) -> (res: Result<[u8; 32], InvalidSignature>)
    ensures
        match spec_scalar_to_fixed_32(bytes@) {
            Some(out) => res matches Ok(a) && a@ == out,
            None => res == Err::<[u8; 32], InvalidSignature>(InvalidSignature),
        },
{
    let start: usize = if bytes.len() > 0 && bytes[0] == 0x00 {
        1
    } else {
        0
    };
    let ghost b = if bytes.len() > 0 && bytes[0] == 0 {
        bytes@.drop_first()
    } else {
        bytes@
    };
    assert(b =~= bytes@.subrange(start as int, bytes.len() as int));
    let k = bytes.len() - start;
    if k > 32 {
        return Err(InvalidSignature);
    }
    let mut out = [0u8; 32];
    let off = 32 - k;
    let mut i: usize = 0;
    while i < k
        invariant
            k == bytes.len() - start,
            k <= 32,
            off == 32 - k,
            start <= bytes.len(),
            i <= k,
            out@.len() == 32,
            forall|j: int| 0 <= j < off ==> out@[j] == 0u8,
            forall|j: int| off <= j < off + i ==> #[trigger] out@[j] == bytes@[start + j - off],
        decreases k - i,
    {
        out[off + i] = bytes[start + i];
        i += 1;
    }
    assert(out@ =~= zeros(off as nat) + b);
    Ok(out)
}

/// Decodes the RSA public key material (an `RSAPublicKey`, not a whole
/// SubjectPublicKeyInfo) and returns its modulus, where the exponent is
/// 65537 and the modulus has a length that libcrux takes.
pub fn decode_spki_spk(spki_spk: &[u8]) -> (res: Result<Vec<u8>, InvalidSignature>)
    ensures
        match spec_spki_modulus(spki_spk@) {
            Some(n) => res matches Ok(v) && v@ == n,
            None => res == Err::<Vec<u8>, InvalidSignature>(InvalidSignature),
        },
{
    let (n, e) = match decode_rsa_public_key(spki_spk) {
        Some(p) => p,
        None => return Err(InvalidSignature),
    };
    if !(e.len() == 3 && e[0] == 1 && e[1] == 0 && e[2] == 1) {
        return Err(InvalidSignature);
    }
    assert(e@ =~= seq![1u8, 0u8, 1u8]);
    let len = n.len();
    if !(len == 256 || len == 384 || len == 512 || len == 768 || len == 1024) {
        return Err(InvalidSignature);
    }
    Ok(n)
}

impl EcdsaP256Verify {
    /// Verifies a DER-encoded ECDSA P-256 signature over `message`.
    pub fn verify_signature(&self, public_key: &[u8], message: &[u8], signature: &[u8]) -> (res:
        Result<(), InvalidSignature>)
        ensures
            res is Ok <==> ecdsa_p256_accepts(public_key@, message@, signature@),
            res is Err ==> res == Err::<(), InvalidSignature>(InvalidSignature),
    {
        let sig = match DerEcdsaSignature::decode(signature) {
            Some(d) => d,
            None => return Err(InvalidSignature),
        };
        let r = scalar_to_fixed_32(sig.r.as_slice())?;
        let s = scalar_to_fixed_32(sig.s.as_slice())?;
        let key = match p256_public_key(public_key) {
            Some(k) => k,
            None => return Err(InvalidSignature),
        };
        if p256_verify(EcdsaDigestAlgorithm::Sha256, message, r, s, key) {
            Ok(())
        } else {
            Err(InvalidSignature)
        }
    }

    /// The identifier of the public key algorithm.
    pub fn public_key_alg_id(&self) -> (res: AlgorithmId)
        ensures
            res == AlgorithmId::EcdsaP256,
    {
        AlgorithmId::EcdsaP256
    }

    /// The identifier of the signature algorithm, after the hash.
    pub fn signature_alg_id(&self) -> (res: AlgorithmId)
        requires
            !(self.0 is Sha224),
        ensures
            res == match self.0 {
                EcdsaDigestAlgorithm::Sha384 => AlgorithmId::EcdsaSha384,
                EcdsaDigestAlgorithm::Sha512 => AlgorithmId::EcdsaSha512,
                _ => AlgorithmId::EcdsaSha256,
            },
    {
        match self.0 {
            EcdsaDigestAlgorithm::Sha224 => {
                proof {
                    assert(false);
                }
                AlgorithmId::EcdsaSha256
            },
            EcdsaDigestAlgorithm::Sha256 => AlgorithmId::EcdsaSha256,
            EcdsaDigestAlgorithm::Sha384 => AlgorithmId::EcdsaSha384,
            EcdsaDigestAlgorithm::Sha512 => AlgorithmId::EcdsaSha512,
        }
    }
}

/// Ed25519 verification puts no condition on the message: with a 32-octet
/// key and a 64-octet signature, it accepts exactly the signatures that
/// libcrux finds valid, over every message; any other key or signature
/// length is refused.
pub proof fn lemma_ed25519_accepts_exactly_valid_signatures(
    public_key: Seq<u8>,
    message: Seq<u8>,
    signature: Seq<u8>,
)
    ensures
        public_key.len() == 32 && signature.len() == 64 ==> (ed25519_accepts(
            public_key,
            message,
            signature,
        ) <==> ed25519_signature_valid(message, public_key, signature)),
        public_key.len() != 32 || signature.len() != 64 ==> !ed25519_accepts(
            public_key,
            message,
            signature,
        ),
{
}

impl Ed25519Verify {
    /// Verifies an Ed25519 signature over `message`.
    pub fn verify_signature(&self, public_key: &[u8], message: &[u8], signature: &[u8]) -> (res:
        Result<(), InvalidSignature>)
        ensures
            res is Ok <==> ed25519_accepts(public_key@, message@, signature@),
            res is Err ==> res == Err::<(), InvalidSignature>(InvalidSignature),
            public_key.len() == 32 && signature.len() == 64 ==> (res is Ok
                <==> ed25519_signature_valid(message@, public_key@, signature@)),
            public_key.len() != 32 || signature.len() != 64 ==> res is Err,
    {
        if public_key.len() != 32 || signature.len() != 64 {
            return Err(InvalidSignature);
        }
        let mut key = [0u8; 32];
        let mut i: usize = 0;
        while i < 32
            invariant
                public_key@.len() == 32,
                key@.len() == 32,
                i <= 32,
                forall|j: int| 0 <= j < i ==> key@[j] == public_key@[j],
            decreases 32 - i,
        {
            key[i] = public_key[i];
            i += 1;
        }
        let mut sig = [0u8; 64];
        let mut i: usize = 0;
        while i < 64
            invariant
                signature@.len() == 64,
                sig@.len() == 64,
                i <= 64,
                forall|j: int| 0 <= j < i ==> sig@[j] == signature@[j],
            decreases 64 - i,
        {
            sig[i] = signature[i];
            i += 1;
        }
        assert(key@ =~= public_key@);
        assert(sig@ =~= signature@);
        if ed25519_verify(message, &key, &sig) {
            Ok(())
        } else {
            Err(InvalidSignature)
        }
    }

    /// The identifier of the public key algorithm.
    pub fn public_key_alg_id(&self) -> (res: AlgorithmId)
        ensures
            res == AlgorithmId::Ed25519,
    {
        AlgorithmId::Ed25519
    }

    /// The identifier of the signature algorithm.
    pub fn signature_alg_id(&self) -> (res: AlgorithmId)
        ensures
            res == AlgorithmId::Ed25519,
    {
        AlgorithmId::Ed25519
    }
}

impl RsaPssVerify {
    /// The identifier of the public key algorithm.
    pub fn public_key_alg_id(&self) -> (res: AlgorithmId)
        ensures
            res == AlgorithmId::RsaEncryption,
    {
        AlgorithmId::RsaEncryption
    }

    /// The identifier of the signature algorithm, after the hash.
    pub fn signature_alg_id(&self) -> (res: AlgorithmId)
        ensures
            res == match self.0 {
                RsaPssDigestAlgorithm::Sha2_256 => AlgorithmId::RsaPssSha256,
                RsaPssDigestAlgorithm::Sha2_384 => AlgorithmId::RsaPssSha384,
                RsaPssDigestAlgorithm::Sha2_512 => AlgorithmId::RsaPssSha512,
            },
    {
        match self.0 {
            RsaPssDigestAlgorithm::Sha2_256 => AlgorithmId::RsaPssSha256,
            RsaPssDigestAlgorithm::Sha2_384 => AlgorithmId::RsaPssSha384,
            RsaPssDigestAlgorithm::Sha2_512 => AlgorithmId::RsaPssSha512,
        }
    }

    /// Verifies an RSA-PSS signature over `message` under an RSA public key in
    /// DER.
    pub fn verify_signature(&self, public_key: &[u8], message: &[u8], signature: &[u8]) -> (res:
        Result<(), InvalidSignature>)
        ensures
            res is Ok <==> rsa_pss_accepts(self.0, self.1, public_key@, message@, signature@),
            res is Err ==> res == Err::<(), InvalidSignature>(InvalidSignature),
    {
        let digest_algo = self.0;
        if self.1 > 0xffff_ffff {
            return Err(InvalidSignature);
        }
        let salt_len = self.1 as u32;
        let modulus = decode_spki_spk(public_key)?;
        if rsa_pss_verify(digest_algo, modulus.as_slice(), message, salt_len, signature) {
            Ok(())
        } else {
            Err(InvalidSignature)
        }
    }
}

} // verus!
