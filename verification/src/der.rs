//! The subset of ASN.1 DER that signature verification reads: definite
//! lengths, `INTEGER`s read as signed or as unsigned values, and the two
//! `SEQUENCE`s of two `INTEGER`s that carry an ECDSA signature and an RSA
//! public key.
//!
//! The spec functions below say what the decoders accept and return; the
//! executable decoders are proved to meet them exactly.
use vstd::prelude::*;

verus! {

/// The largest length that a DER length field may carry (`u32::MAX`), and
/// the largest input that a decoder accepts.
pub const MAX_DER_LENGTH: usize = 0xffff_ffff;

/// Tag octet of an ASN.1 `INTEGER`.
pub const TAG_INTEGER: u8 = 0x02;

/// Tag octet of a constructed ASN.1 `SEQUENCE`.
pub const TAG_SEQUENCE: u8 = 0x30;

/// The value of a big-endian byte string as a natural number.
pub open spec fn be_value(s: Seq<u8>) -> nat
    decreases s.len(),
{
    if s.len() == 0 {
        0
    } else {
        be_value(s.drop_last()) * 256 + (s.last() as nat)
    }
}

/// `256` to the power `n`.
pub open spec fn pow256(n: nat) -> nat
    decreases n,
{
    if n == 0 {
        1
    } else {
        256 * pow256((n - 1) as nat)
    }
}

/// A long-form length of `v` written in `n` octets uses the fewest octets
/// possible, and `v` is within the supported maximum.
pub open spec fn length_octets_minimal(v: nat, n: nat) -> bool {
    ||| n == 1 && 0x80 <= v <= 0xff
    ||| n == 2 && 0x100 <= v <= 0xffff
    ||| n == 3 && 0x1_0000 <= v <= 0xff_ffff
    ||| n == 4 && 0x100_0000 <= v <= 0xffff_ffff
}

/// The definite DER length at the start of `t`: the length and the number of
/// octets that encode it.
pub open spec fn spec_length(t: Seq<u8>) -> Option<(nat, nat)> {
    if t.len() == 0 {
        None
    } else if t[0] < 0x80 {
        Some((t[0] as nat, 1nat))
    } else if 0x81 <= t[0] <= 0x84 {
        let n = (t[0] - 0x80) as nat;
        if t.len() < 1 + n {
            None
        } else {
            let v = be_value(t.subrange(1, 1 + n as int));
            if length_octets_minimal(v, n) {
                Some((v, 1 + n))
            } else {
                None
            }
        }
    } else {
        None
    }
}

/// The tag-length-value element with tag octet `tag` at the start of `t`:
/// its contents and the number of octets of the whole element.
pub open spec fn spec_tlv(t: Seq<u8>, tag: u8) -> Option<(Seq<u8>, nat)> {
    if t.len() == 0 || t[0] != tag {
        None
    } else {
        match spec_length(t.drop_first()) {
            Some((len, n)) => if 1 + n + len <= t.len() {
                Some((t.subrange(1 + n as int, 1 + n + len as int), 1 + n + len))
            } else {
                None
            },
            None => None,
        }
    }
}

/// The contents of an `INTEGER` are its canonical two's-complement encoding:
/// not empty, and no leading octet that only extends the sign.
pub open spec fn int_canonical(c: Seq<u8>) -> bool {
    &&& c.len() > 0
    &&& !(c.len() >= 2 && c[0] == 0x00 && c[1] < 0x80)
    &&& !(c.len() >= 2 && c[0] == 0xff && c[1] >= 0x80)
}

/// The magnitude octets of the contents `c` of an `INTEGER` read as an
/// unsigned value: the leading `0x00` that keeps a value positive is
/// dropped; a negative value, an empty or a non-minimal encoding is refused.
pub open spec fn uint_magnitude(c: Seq<u8>) -> Option<Seq<u8>> {
    if c.len() == 0 {
        None
    } else if c[0] == 0x00 {
        if c.len() == 1 {
            Some(c)
        } else if c[1] < 0x80 {
            None
        } else {
            Some(c.drop_first())
        }
    } else if c[0] >= 0x80 {
        None
    } else {
        Some(c)
    }
}

/// `ECDSA-Sig-Value ::= SEQUENCE { r INTEGER, s INTEGER }` at the start of
/// `t` (octets after the sequence are ignored): the contents of `r` and `s`.
pub open spec fn spec_ecdsa_sig_value(t: Seq<u8>) -> Option<(Seq<u8>, Seq<u8>)> {
    if t.len() > MAX_DER_LENGTH {
        None
    } else {
        match spec_tlv(t, TAG_SEQUENCE) {
            Some((body, _)) => match spec_tlv(body, TAG_INTEGER) {
                Some((r, n1)) => match spec_tlv(body.skip(n1 as int), TAG_INTEGER) {
                    Some((s, n2)) => if int_canonical(r) && int_canonical(s) && n1 + n2
                        == body.len() {
                        Some((r, s))
                    } else {
                        None
                    },
                    None => None,
                },
                None => None,
            },
            None => None,
        }
    }
}

/// `RSAPublicKey ::= SEQUENCE { modulus INTEGER, publicExponent INTEGER }` at
/// the start of `t` (octets after the sequence are ignored), both read as
/// unsigned: the magnitudes of the modulus and of the exponent.
pub open spec fn spec_rsa_public_key(t: Seq<u8>) -> Option<(Seq<u8>, Seq<u8>)> {
    if t.len() > MAX_DER_LENGTH {
        None
    } else {
        match spec_tlv(t, TAG_SEQUENCE) {
            Some((body, _)) => match spec_tlv(body, TAG_INTEGER) {
                Some((n, n1)) => match spec_tlv(body.skip(n1 as int), TAG_INTEGER) {
                    Some((e, n2)) => if n1 + n2 == body.len() {
                        match (uint_magnitude(n), uint_magnitude(e)) {
                            (Some(nm), Some(em)) => Some((nm, em)),
                            _ => None,
                        }
                    } else {
                        None
                    },
                    None => None,
                },
                None => None,
            },
            None => None,
        }
    }
}

proof fn lemma_be_value_step(s: Seq<u8>, a: int, i: int)
    requires
        0 <= a,
        0 <= i,
        a + i < s.len(),
    ensures
        be_value(s.subrange(a, a + i + 1)) == be_value(s.subrange(a, a + i)) * 256 + s[a + i],
{
    let t = s.subrange(a, a + i + 1);
    assert(t.drop_last() =~= s.subrange(a, a + i));
}

/// The DER length octets of `len`: one octet below `0x80`, otherwise
/// `0x80` plus the count of the big-endian octets that follow.
pub open spec fn encode_length(len: nat) -> Seq<u8> {
    if len < 0x80 {
        seq![len as u8]
    } else if len <= 0xff {
        seq![0x81u8, len as u8]
    } else if len <= 0xffff {
        seq![0x82u8, (len / 0x100) as u8, (len % 0x100) as u8]
    } else if len <= 0xff_ffff {
        seq![0x83u8, (len / 0x1_0000) as u8, ((len / 0x100) % 0x100) as u8, (len % 0x100) as u8]
    } else {
        seq![
            0x84u8,
            (len / 0x100_0000) as u8,
            ((len / 0x1_0000) % 0x100) as u8,
            ((len / 0x100) % 0x100) as u8,
            (len % 0x100) as u8,
        ]
    }
}

/// The DER element with tag octet `tag` and contents `content`.
pub open spec fn encode_tlv(tag: u8, content: Seq<u8>) -> Seq<u8> {
    seq![tag] + encode_length(content.len()) + content
}

/// The DER `SEQUENCE` of two `INTEGER`s with the contents `a` and `b`: the
/// shape of both an `ECDSA-Sig-Value` and an `RSAPublicKey`.
pub open spec fn encode_integer_pair(a: Seq<u8>, b: Seq<u8>) -> Seq<u8> {
    encode_tlv(TAG_SEQUENCE, encode_tlv(TAG_INTEGER, a) + encode_tlv(TAG_INTEGER, b))
}

proof fn lemma_be_value_short(a: u8, b: u8, c: u8, d: u8)
    ensures
        be_value(seq![a]) == a as nat,
        be_value(seq![a, b]) == a * 256 + b,
        be_value(seq![a, b, c]) == (a * 256 + b) * 256 + c,
        be_value(seq![a, b, c, d]) == ((a * 256 + b) * 256 + c) * 256 + d,
{
    assert(seq![a].drop_last() =~= Seq::<u8>::empty());
    assert(seq![a, b].drop_last() =~= seq![a]);
    assert(seq![a, b, c].drop_last() =~= seq![a, b]);
    assert(seq![a, b, c, d].drop_last() =~= seq![a, b, c]);
    assert(be_value(Seq::<u8>::empty()) == 0);
    assert(be_value(seq![a]) == a as nat);
    assert(be_value(seq![a, b]) == a * 256 + b);
    assert(be_value(seq![a, b, c]) == (a * 256 + b) * 256 + c);
}

/// A length that DER can carry is read back from its encoding, whatever
/// follows it.
pub proof fn lemma_length_roundtrip(len: nat, rest: Seq<u8>)
    requires
        len <= MAX_DER_LENGTH,
    ensures
        spec_length(encode_length(len) + rest) == Some((len, encode_length(len).len())),
        1 <= encode_length(len).len() <= 5,
{
    let e = encode_length(len);
    let t = e + rest;
    assert(t[0] == e[0]);
    if len < 0x80 {
    } else if len <= 0xff {
        assert(t.subrange(1, 2) =~= seq![len as u8]);
        lemma_be_value_short(len as u8, 0, 0, 0);
    } else if len <= 0xffff {
        let a = (len / 0x100) as u8;
        let b = (len % 0x100) as u8;
        assert(t.subrange(1, 3) =~= seq![a, b]);
        lemma_be_value_short(a, b, 0, 0);
        assert(len == (len / 0x100) * 0x100 + len % 0x100);
    } else if len <= 0xff_ffff {
        let a = (len / 0x1_0000) as u8;
        let b = ((len / 0x100) % 0x100) as u8;
        let c = (len % 0x100) as u8;
        assert(t.subrange(1, 4) =~= seq![a, b, c]);
        lemma_be_value_short(a, b, c, 0);
        assert(len == ((len / 0x1_0000) * 0x100 + (len / 0x100) % 0x100) * 0x100 + len % 0x100);
    } else {
        let a = (len / 0x100_0000) as u8;
        let b = ((len / 0x1_0000) % 0x100) as u8;
        let c = ((len / 0x100) % 0x100) as u8;
        let d = (len % 0x100) as u8;
        assert(t.subrange(1, 5) =~= seq![a, b, c, d]);
        lemma_be_value_short(a, b, c, d);
        assert(len == (((len / 0x100_0000) * 0x100 + (len / 0x1_0000) % 0x100) * 0x100 + (len
            / 0x100) % 0x100) * 0x100 + len % 0x100);
    }
}

/// An element is read back from its encoding, whatever follows it.
pub proof fn lemma_tlv_roundtrip(tag: u8, content: Seq<u8>, rest: Seq<u8>)
    requires
        content.len() <= MAX_DER_LENGTH,
    ensures
        spec_tlv(encode_tlv(tag, content) + rest, tag) == Some(
            (content, encode_tlv(tag, content).len()),
        ),
{
    let e = encode_length(content.len());
    let t = encode_tlv(tag, content) + rest;
    lemma_length_roundtrip(content.len(), content + rest);
    assert(t.drop_first() =~= e + (content + rest));
    assert(t.subrange(1 + e.len() as int, 1 + e.len() + content.len() as int) =~= content);
}

proof fn lemma_integer_pair_parts(a: Seq<u8>, b: Seq<u8>, rest: Seq<u8>)
    requires
        encode_integer_pair(a, b).len() + rest.len() <= MAX_DER_LENGTH,
    ensures
        ({
            let body = encode_tlv(TAG_INTEGER, a) + encode_tlv(TAG_INTEGER, b);
            let n1 = encode_tlv(TAG_INTEGER, a).len();
            &&& spec_tlv(encode_integer_pair(a, b) + rest, TAG_SEQUENCE) == Some(
                (body, encode_integer_pair(a, b).len()),
            )
            &&& spec_tlv(body, TAG_INTEGER) == Some((a, n1))
            &&& spec_tlv(body.skip(n1 as int), TAG_INTEGER) == Some(
                (b, encode_tlv(TAG_INTEGER, b).len()),
            )
            &&& n1 + encode_tlv(TAG_INTEGER, b).len() == body.len()
        }),
{
    let ea = encode_tlv(TAG_INTEGER, a);
    let eb = encode_tlv(TAG_INTEGER, b);
    let body = ea + eb;
    assert(body.len() <= encode_integer_pair(a, b).len());
    lemma_tlv_roundtrip(TAG_SEQUENCE, body, rest);
    lemma_tlv_roundtrip(TAG_INTEGER, a, eb);
    lemma_tlv_roundtrip(TAG_INTEGER, b, Seq::<u8>::empty());
    assert(body.skip(ea.len() as int) =~= eb + Seq::<u8>::empty());
}

/// Decoding an `ECDSA-Sig-Value` gives back the integers it was encoded
/// from, whatever follows it, as long as the input is within the size a
/// decoder accepts.
pub proof fn lemma_ecdsa_sig_value_roundtrip(r: Seq<u8>, s: Seq<u8>, rest: Seq<u8>)
    requires
        int_canonical(r),
        int_canonical(s),
        encode_integer_pair(r, s).len() + rest.len() <= MAX_DER_LENGTH,
    ensures
        spec_ecdsa_sig_value(encode_integer_pair(r, s) + rest) == Some((r, s)),
{
    lemma_integer_pair_parts(r, s, rest);
}

/// Decoding an `RSAPublicKey` gives back the magnitudes of the integers it
/// was encoded from, whatever follows it, as long as both read as unsigned
/// and the input is within the size a decoder accepts.
pub proof fn lemma_rsa_public_key_roundtrip(n: Seq<u8>, e: Seq<u8>, rest: Seq<u8>)
    requires
        uint_magnitude(n) is Some,
        uint_magnitude(e) is Some,
        encode_integer_pair(n, e).len() + rest.len() <= MAX_DER_LENGTH,
    ensures
        spec_rsa_public_key(encode_integer_pair(n, e) + rest) == Some(
            (uint_magnitude(n).unwrap(), uint_magnitude(e).unwrap()),
        ),
{
    lemma_integer_pair_parts(n, e, rest);
}

proof fn lemma_digits(v: nat, a: nat, b: nat)
    requires
        v == a * 256 + b,
        b < 256,
    ensures
        v / 0x100 == a,
        v % 0x100 == b,
{
    assert(v / 0x100 == a && v % 0x100 == b) by (nonlinear_arith)
        requires
            v == a * 256 + b,
            b < 256,
    ;
}

/// A length that decodes was written in exactly the octets that DER uses
/// for it.
pub proof fn lemma_length_unique(t: Seq<u8>)
    requires
        spec_length(t) is Some,
    ensures
        t.subrange(0, spec_length(t).unwrap().1 as int) == encode_length(spec_length(t).unwrap().0),
{
    let (v, n) = spec_length(t).unwrap();
    let e = encode_length(v);
    if t[0] < 0x80 {
        assert(t.subrange(0, 1) =~= e);
    } else {
        let a = t[1];
        if n == 2 {
            lemma_be_value_short(a, 0, 0, 0);
            assert(t.subrange(1, 2) =~= seq![a]);
            assert(t.subrange(0, 2) =~= e);
        } else if n == 3 {
            let b = t[2];
            assert(t.subrange(1, 3) =~= seq![a, b]);
            lemma_be_value_short(a, b, 0, 0);
            lemma_digits(v, a as nat, b as nat);
            assert(t.subrange(0, 3) =~= e);
        } else if n == 4 {
            let b = t[2];
            let c = t[3];
            assert(t.subrange(1, 4) =~= seq![a, b, c]);
            lemma_be_value_short(a, b, c, 0);
            let ab = a * 256 + b;
            lemma_digits(v, ab as nat, c as nat);
            lemma_digits(ab as nat, a as nat, b as nat);
            assert(v / 0x1_0000 == a) by (nonlinear_arith)
                requires
                    v == (a * 256 + b) * 256 + c,
                    b < 256,
                    c < 256,
            ;
            assert(t.subrange(0, 4) =~= e);
        } else {
            let b = t[2];
            let c = t[3];
            let d = t[4];
            assert(t.subrange(1, 5) =~= seq![a, b, c, d]);
            lemma_be_value_short(a, b, c, d);
            let ab = a * 256 + b;
            let abc = ab * 256 + c;
            lemma_digits(v, abc as nat, d as nat);
            lemma_digits(abc as nat, ab as nat, c as nat);
            lemma_digits(ab as nat, a as nat, b as nat);
            assert(v / 0x1_0000 == ab) by (nonlinear_arith)
                requires
                    v == ((a * 256 + b) * 256 + c) * 256 + d,
                    ab == a * 256 + b,
                    c < 256,
                    d < 256,
            ;
            assert(v / 0x100_0000 == a) by (nonlinear_arith)
                requires
                    v == ((a * 256 + b) * 256 + c) * 256 + d,
                    b < 256,
                    c < 256,
                    d < 256,
            ;
            assert(t.subrange(0, 5) =~= e);
        }
    }
}

/// An element that decodes was written exactly as DER writes it.
pub proof fn lemma_tlv_unique(t: Seq<u8>, tag: u8)
    requires
        spec_tlv(t, tag) is Some,
    ensures
        t.subrange(0, spec_tlv(t, tag).unwrap().1 as int) == encode_tlv(
            tag,
            spec_tlv(t, tag).unwrap().0,
        ),
{
    let t1 = t.drop_first();
    lemma_length_unique(t1);
    let (len, n) = spec_length(t1).unwrap();
    let c = t.subrange(1 + n as int, 1 + n + len as int);
    assert(t1.subrange(0, n as int) =~= t.subrange(1, 1 + n as int));
    assert(t.subrange(0, (1 + n + len) as int) =~= seq![tag] + t.subrange(1, 1 + n as int) + c);
}

/// DER leaves no choice: an `ECDSA-Sig-Value` that decodes to `(r, s)`
/// starts with exactly the encoding of `(r, s)`. No other octets before
/// the end of the sequence decode to the same signature.
pub proof fn lemma_ecdsa_sig_value_unique(t: Seq<u8>)
    requires
        spec_ecdsa_sig_value(t) is Some,
    ensures
        ({
            let (r, s) = spec_ecdsa_sig_value(t).unwrap();
            let e = encode_integer_pair(r, s);
            e.len() <= t.len() && t.subrange(0, e.len() as int) == e
        }),
{
    let (r, s) = spec_ecdsa_sig_value(t).unwrap();
    lemma_tlv_unique(t, TAG_SEQUENCE);
    let (body, m) = spec_tlv(t, TAG_SEQUENCE).unwrap();
    lemma_tlv_unique(body, TAG_INTEGER);
    let n1 = spec_tlv(body, TAG_INTEGER).unwrap().1;
    let rest = body.skip(n1 as int);
    lemma_tlv_unique(rest, TAG_INTEGER);
    let n2 = spec_tlv(rest, TAG_INTEGER).unwrap().1;
    assert(rest.subrange(0, n2 as int) =~= rest);
    assert(body =~= body.subrange(0, n1 as int) + rest);
    assert(body =~= encode_tlv(TAG_INTEGER, r) + encode_tlv(TAG_INTEGER, s));
}

/// Reads the DER length at `pos` within `s[..end]`.
fn read_length(s: &[u8], pos: usize, end: usize) -> (res: Option<(usize, usize)>)
    requires
        pos <= end <= s.len(),
    ensures
        match spec_length(s@.subrange(pos as int, end as int)) {
            Some((v, n)) => res == Some((v as usize, n as usize)),
            None => res is None,
        },
        res matches Some((v, n)) ==> 1 <= n <= end - pos && n <= 5 && v <= MAX_DER_LENGTH,
{
    let ghost t = s@.subrange(pos as int, end as int);
    if pos >= end {
        return None;
    }
    let first = s[pos];
    assert(t[0] == first);
    if first < 0x80 {
        return Some((first as usize, 1));
    }
    if first < 0x81 || first > 0x84 {
        return None;
    }
    let n = (first - 0x80) as usize;
    if end - pos - 1 < n {
        return None;
    }
    let mut v: u64 = 0;
    let mut i: usize = 0;
    assert(s@.subrange(pos + 1, pos + 1) =~= Seq::<u8>::empty());
    while i < n
        invariant
            pos < end <= s.len(),
            1 <= n <= 4,
            pos + 1 + n <= end,
            i <= n,
            v == be_value(s@.subrange(pos + 1, pos + 1 + i)),
            v < pow256(i as nat),
        decreases n - i,
    {
        proof {
            lemma_be_value_step(s@, pos + 1, i as int);
            let p = pow256(i as nat);
            assert(pow256((i + 1) as nat) == 256 * p);
            let b = s[(pos + 1 + i) as int];
            assert(v * 256 + b < 256 * p) by (nonlinear_arith)
                requires
                    v < p,
                    b < 256,
            ;
            assert(pow256(0) == 1);
            assert(pow256(1) == 256);
            assert(pow256(2) == 65536);
            assert(pow256(3) == 0x100_0000);
        }
        v = v * 256 + s[pos + 1 + i] as u64;
        i += 1;
    }
    assert(t.subrange(1, 1 + n as int) =~= s@.subrange(pos + 1, pos + 1 + n));
    if (n == 1 && 0x80 <= v && v <= 0xff) || (n == 2 && 0x100 <= v && v <= 0xffff) || (n == 3
        && 0x1_0000 <= v && v <= 0xff_ffff) || (n == 4 && 0x100_0000 <= v && v <= 0xffff_ffff) {
        Some((v as usize, n + 1))
    } else {
        None
    }
}

/// Reads the element with tag octet `tag` at `pos` within `s[..end]`; on
/// success returns where its contents start and end.
fn read_tlv(s: &[u8], pos: usize, end: usize, tag: u8) -> (res: Option<(usize, usize)>)
    requires
        pos <= end <= s.len(),
    ensures
        match spec_tlv(s@.subrange(pos as int, end as int), tag) {
            Some((c, n)) => res matches Some((a, b)) && pos < a <= b <= end && b == pos + n
                && s@.subrange(a as int, b as int) == c,
            None => res is None,
        },
{
    let ghost t = s@.subrange(pos as int, end as int);
    if pos >= end || s[pos] != tag {
        return None;
    }
    assert(s@.subrange(pos + 1, end as int) =~= t.drop_first());
    match read_length(s, pos + 1, end) {
        None => None,
        Some((len, n)) => {
            let a = pos + 1 + n;
            if end - a < len {
                None
            } else {
                let b = a + len;
                assert(s@.subrange(a as int, b as int) =~= t.subrange(1 + n, 1 + n + len));
                Some((a, b))
            }
        },
    }
}

/// Whether `s[a..b]` is the canonical contents of an `INTEGER`.
fn int_canonical_at(s: &[u8], a: usize, b: usize) -> (res: bool)
    requires
        a <= b <= s.len(),
    ensures
        res == int_canonical(s@.subrange(a as int, b as int)),
{
    if a >= b {
        return false;
    }
    if b - a >= 2 && s[a] == 0x00 && s[a + 1] < 0x80 {
        return false;
    }
    if b - a >= 2 && s[a] == 0xff && s[a + 1] >= 0x80 {
        return false;
    }
    true
}

/// Where the magnitude of the unsigned `INTEGER` contents `s[a..b]` starts,
/// if they hold one.
fn uint_magnitude_at(s: &[u8], a: usize, b: usize) -> (res: Option<usize>)
    requires
        a <= b <= s.len(),
    ensures
        match uint_magnitude(s@.subrange(a as int, b as int)) {
            Some(m) => res matches Some(k) && a <= k <= b && s@.subrange(k as int, b as int) == m,
            None => res is None,
        },
{
    let ghost c = s@.subrange(a as int, b as int);
    if a >= b {
        return None;
    }
    if s[a] == 0x00 {
        if b - a == 1 {
            Some(a)
        } else if s[a + 1] < 0x80 {
            None
        } else {
            assert(s@.subrange(a + 1, b as int) =~= c.drop_first());
            Some(a + 1)
        }
    } else if s[a] >= 0x80 {
        None
    } else {
        Some(a)
    }
}

/// A copy of `s[a..b]`.
fn copy_range(s: &[u8], a: usize, b: usize) -> (v: Vec<u8>)
    requires
        a <= b <= s.len(),
    ensures
        v@ == s@.subrange(a as int, b as int),
{
    let mut v: Vec<u8> = Vec::new();
    let mut i: usize = a;
    while i < b
        invariant
            a <= i <= b <= s.len(),
            v@ == s@.subrange(a as int, i as int),
        decreases b - i,
    {
        v.push(s[i]);
        i += 1;
        assert(v@ =~= s@.subrange(a as int, i as int));
    }
    v
}

/// The two `INTEGER`s of an ECDSA signature as DER carries them.
pub struct DerEcdsaSignature {
    /// Contents octets of `r` (two's complement, big-endian).
    pub r: Vec<u8>,
    /// Contents octets of `s` (two's complement, big-endian).
    pub s: Vec<u8>,
}

impl DerEcdsaSignature {
    /// Decodes an `ECDSA-Sig-Value` from the start of `bytes`.
    #[verifier::spinoff_prover]
    pub fn decode(bytes: &[u8]) -> (res: Option<DerEcdsaSignature>)
        ensures
            match spec_ecdsa_sig_value(bytes@) {
                Some((r, s)) => res matches Some(d) && d.r@ == r && d.s@ == s,
                None => res is None,
            },
    {
        if bytes.len() > MAX_DER_LENGTH {
            return None;
        }
        assert(bytes@.subrange(0, bytes.len() as int) =~= bytes@);
        let (b0, b1) = match read_tlv(bytes, 0, bytes.len(), TAG_SEQUENCE) {
            Some(p) => p,
            None => return None,
        };
        let ghost body = bytes@.subrange(b0 as int, b1 as int);
        let (r0, r1) = match read_tlv(bytes, b0, b1, TAG_INTEGER) {
            Some(p) => p,
            None => return None,
        };
        let ghost n1 = (r1 - b0) as nat;
        assert(bytes@.subrange(r1 as int, b1 as int) =~= body.skip(n1 as int));
        let (s0, s1) = match read_tlv(bytes, r1, b1, TAG_INTEGER) {
            Some(p) => p,
            None => return None,
        };
        if !int_canonical_at(bytes, r0, r1) || !int_canonical_at(bytes, s0, s1) || s1 != b1 {
            return None;
        }
        let r = copy_range(bytes, r0, r1);
        let s = copy_range(bytes, s0, s1);
        Some(DerEcdsaSignature { r, s })
    }
}

/// Decodes an `RSAPublicKey` from the start of `bytes`, reading both
/// integers as unsigned; returns the magnitudes of modulus and exponent.
#[verifier::spinoff_prover]
#[verifier::rlimit(40)]
pub fn decode_rsa_public_key(bytes: &[u8]) -> (res: Option<(Vec<u8>, Vec<u8>)>)
    ensures
        match spec_rsa_public_key(bytes@) {
            Some((n, e)) => res matches Some((nv, ev)) && nv@ == n && ev@ == e,
            None => res is None,
        },
{
    if bytes.len() > MAX_DER_LENGTH {
        return None;
    }
    assert(bytes@.subrange(0, bytes.len() as int) =~= bytes@);
    let (b0, b1) = match read_tlv(bytes, 0, bytes.len(), TAG_SEQUENCE) {
        Some(p) => p,
        None => return None,
    };
    let ghost body = bytes@.subrange(b0 as int, b1 as int);
    let (n0, n1) = match read_tlv(bytes, b0, b1, TAG_INTEGER) {
        Some(p) => p,
        None => return None,
    };
    let ghost k1 = (n1 - b0) as nat;
    assert(bytes@.subrange(n1 as int, b1 as int) =~= body.skip(k1 as int));
    let (e0, e1) = match read_tlv(bytes, n1, b1, TAG_INTEGER) {
        Some(p) => p,
        None => return None,
    };
    if e1 != b1 {
        return None;
    }
    let nm = match uint_magnitude_at(bytes, n0, n1) {
        Some(k) => k,
        None => return None,
    };
    let em = match uint_magnitude_at(bytes, e0, e1) {
        Some(k) => k,
        None => return None,
    };
    Some((copy_range(bytes, nm, n1), copy_range(bytes, em, e1)))
}

} // verus!
