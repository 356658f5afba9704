//! The DER decoders against the `der` crate, on valid encodings and on many
//! mutations of them, and on hand-written edge cases.

use der::Reader;
use rustls_libcrux_provider::der::{decode_rsa_public_key, DerEcdsaSignature};

struct ReferenceSignature {
    r: der::asn1::Int,
    s: der::asn1::Int,
}

impl<'a> der::Decode<'a> for ReferenceSignature {
    type Error = der::Error;

    fn decode<R: der::Reader<'a>>(decoder: &mut R) -> der::Result<Self> {
        decoder.sequence(|decoder| {
            Ok(Self {
                r: decoder.decode()?,
                s: decoder.decode()?,
            })
        })
    }
}

fn reference_signature(bytes: &[u8]) -> Option<(Vec<u8>, Vec<u8>)> {
    let mut reader = der::SliceReader::new(bytes).ok()?;
    let sig: ReferenceSignature = reader.decode().ok()?;
    Some((sig.r.as_bytes().to_vec(), sig.s.as_bytes().to_vec()))
}

fn reference_rsa_key(bytes: &[u8]) -> Option<(Vec<u8>, Vec<u8>)> {
    let mut reader = der::SliceReader::new(bytes).ok()?;
    let (n, e) = reader
        .sequence(|reader| {
            let n: der::asn1::UintRef = reader.decode()?;
            let e: der::asn1::UintRef = reader.decode()?;
            Ok::<_, der::Error>((n, e))
        })
        .ok()?;
    Some((n.as_bytes().to_vec(), e.as_bytes().to_vec()))
}

fn ours_signature(bytes: &[u8]) -> Option<(Vec<u8>, Vec<u8>)> {
    DerEcdsaSignature::decode(bytes).map(|d| (d.r, d.s))
}

fn encode_length(len: usize) -> Vec<u8> {
    if len < 0x80 {
        vec![len as u8]
    } else {
        let bytes: Vec<u8> = (len as u32)
            .to_be_bytes()
            .iter()
            .copied()
            .skip_while(|b| *b == 0)
            .collect();
        let mut out = vec![0x80 | bytes.len() as u8];
        out.extend(bytes);
        out
    }
}

fn tlv(tag: u8, content: &[u8]) -> Vec<u8> {
    let mut out = vec![tag];
    out.extend(encode_length(content.len()));
    out.extend_from_slice(content);
    out
}

fn pair(a: &[u8], b: &[u8]) -> Vec<u8> {
    let mut body = tlv(0x02, a);
    body.extend(tlv(0x02, b));
    tlv(0x30, &body)
}

struct XorShift(u64);

impl XorShift {
    fn next(&mut self) -> u64 {
        let mut x = self.0;
        x ^= x << 13;
        x ^= x >> 7;
        x ^= x << 17;
        self.0 = x;
        x
    }

    fn below(&mut self, n: usize) -> usize {
        (self.next() % n as u64) as usize
    }
}

fn seeds() -> Vec<Vec<u8>> {
    let mut seeds = Vec::new();
    let contents: Vec<Vec<u8>> = vec![
        vec![0x00],
        vec![0x01],
        vec![0x7f],
        vec![0x00, 0x80],
        vec![0x80],
        vec![0xff],
        vec![0xff, 0x7f],
        vec![0x00, 0x7f],
        vec![0xff, 0x80],
        vec![0x12; 31],
        vec![0x34; 32],
        {
            let mut v = vec![0x00];
            v.extend(vec![0xab; 32]);
            v
        },
        vec![0x01; 33],
        vec![0x05; 200],
        {
            let mut v = vec![0x00];
            v.extend(vec![0xc3; 256]);
            v
        },
    ];
    for a in &contents {
        for b in &contents {
            seeds.push(pair(a, b));
        }
    }
    seeds.push(pair(&[0x01, 0x00, 0x01], &[0x01, 0x00, 0x01]));
    // A long-form length that is not minimal, and an indefinite length.
    seeds.push(vec![0x30, 0x81, 0x06, 0x02, 0x01, 0x01, 0x02, 0x01, 0x01]);
    seeds.push(vec![0x30, 0x80, 0x02, 0x01, 0x01, 0x02, 0x01, 0x01, 0x00, 0x00]);
    seeds.push(vec![0x30, 0x06, 0x02, 0x81, 0x01, 0x01, 0x02, 0x01, 0x01]);
    seeds
}

fn mutate(rng: &mut XorShift, input: &[u8]) -> Vec<u8> {
    let mut v = input.to_vec();
    for _ in 0..1 + rng.below(3) {
        match rng.below(6) {
            0 if !v.is_empty() => {
                let i = rng.below(v.len());
                v[i] ^= 1 << rng.below(8);
            }
            1 if !v.is_empty() => {
                let i = rng.below(v.len());
                v[i] = rng.next() as u8;
            }
            2 if !v.is_empty() => {
                let i = rng.below(v.len());
                v.truncate(i);
            }
            3 => v.push(rng.next() as u8),
            4 => {
                let i = rng.below(v.len() + 1);
                v.insert(i, rng.next() as u8);
            }
            _ if v.len() > 2 => {
                let i = rng.below(v.len());
                v.remove(i);
            }
            _ => {}
        }
    }
    v
}

#[test]
fn signature_decoding_agrees_with_der_crate_on_seeds() {
    for seed in seeds() {
        assert_eq!(ours_signature(&seed), reference_signature(&seed), "{seed:02x?}");
    }
}

#[test]
fn signature_decoding_agrees_with_der_crate_on_mutations() {
    let mut rng = XorShift(0x9e37_79b9_7f4a_7c15);
    let seeds = seeds();
    for _ in 0..40_000 {
        let seed = &seeds[rng.below(seeds.len())];
        let input = mutate(&mut rng, seed);
        assert_eq!(ours_signature(&input), reference_signature(&input), "{input:02x?}");
    }
}

#[test]
fn rsa_key_decoding_agrees_with_der_crate_on_seeds() {
    for seed in seeds() {
        assert_eq!(decode_rsa_public_key(&seed), reference_rsa_key(&seed), "{seed:02x?}");
    }
}

#[test]
fn rsa_key_decoding_agrees_with_der_crate_on_mutations() {
    let mut rng = XorShift(0x2545_f491_4f6c_dd1d);
    let seeds = seeds();
    for _ in 0..40_000 {
        let seed = &seeds[rng.below(seeds.len())];
        let input = mutate(&mut rng, seed);
        assert_eq!(decode_rsa_public_key(&input), reference_rsa_key(&input), "{input:02x?}");
    }
}

#[test]
fn signature_integers_keep_their_sign_octet() {
    let bytes = pair(&[0x00, 0x80, 0x01], &[0x7f]);
    let sig = DerEcdsaSignature::decode(&bytes).unwrap();
    assert_eq!(sig.r, vec![0x00, 0x80, 0x01]);
    assert_eq!(sig.s, vec![0x7f]);
}

#[test]
fn signature_ignores_what_follows_the_sequence() {
    let mut bytes = pair(&[0x01], &[0x02]);
    bytes.extend([0xde, 0xad]);
    let sig = DerEcdsaSignature::decode(&bytes).unwrap();
    assert_eq!((sig.r, sig.s), (vec![0x01], vec![0x02]));
}

#[test]
fn signature_refuses_extra_element_in_sequence() {
    let mut body = tlv(0x02, &[0x01]);
    body.extend(tlv(0x02, &[0x02]));
    body.extend(tlv(0x02, &[0x03]));
    assert!(DerEcdsaSignature::decode(&tlv(0x30, &body)).is_none());
}

#[test]
fn signature_refuses_non_canonical_integers() {
    assert!(DerEcdsaSignature::decode(&pair(&[0x00, 0x7f], &[0x01])).is_none());
    assert!(DerEcdsaSignature::decode(&pair(&[0x01], &[0xff, 0x80])).is_none());
    assert!(DerEcdsaSignature::decode(&pair(&[], &[0x01])).is_none());
}

#[test]
fn signature_refuses_bad_lengths_and_tags() {
    // non-minimal long form
    assert!(DerEcdsaSignature::decode(&[0x30, 0x81, 0x06, 2, 1, 1, 2, 1, 1]).is_none());
    // indefinite length
    assert!(DerEcdsaSignature::decode(&[0x30, 0x80, 2, 1, 1, 2, 1, 1, 0, 0]).is_none());
    // a SET in place of the SEQUENCE
    assert!(DerEcdsaSignature::decode(&[0x31, 0x06, 2, 1, 1, 2, 1, 1]).is_none());
    // truncated
    assert!(DerEcdsaSignature::decode(&[0x30, 0x06, 2, 1, 1, 2, 1]).is_none());
    assert!(DerEcdsaSignature::decode(&[]).is_none());
}

#[test]
fn long_form_lengths_are_read() {
    let r = vec![0x11; 200];
    let s = vec![0x22; 300];
    let bytes = pair(&r, &s);
    assert_eq!(bytes[1], 0x82);
    let sig = DerEcdsaSignature::decode(&bytes).unwrap();
    assert_eq!((sig.r, sig.s), (r, s));
}

#[test]
fn rsa_key_magnitudes_drop_the_sign_octet() {
    let mut n = vec![0x00];
    n.extend(vec![0xc1; 256]);
    let bytes = pair(&n, &[0x01, 0x00, 0x01]);
    assert_eq!(
        decode_rsa_public_key(&bytes),
        Some((vec![0xc1; 256], vec![0x01, 0x00, 0x01]))
    );
    assert_eq!(decode_rsa_public_key(&pair(&[0x00], &[0x03])), Some((vec![0x00], vec![0x03])));
}

#[test]
fn rsa_key_refuses_negative_integers() {
    assert_eq!(decode_rsa_public_key(&pair(&[0x80], &[0x03])), None);
    assert_eq!(decode_rsa_public_key(&pair(&[0x01], &[0x00, 0x03])), None);
}
