//! Content fingerprints: a SHA-512/256 digest of the bytes, written in the
//! URL-safe base64 alphabet without padding.

use vstd::prelude::*;

verus! {

/// Inputs to the digest must be shorter than this many bytes: their length in
/// bits has to fit in a `u64`.
pub const MAX_DIGEST_INPUT: u64 = 0x2000_0000_0000_0000;

/// What SHA-512/256 yields for the given bytes.
pub uninterp spec fn sha512_256_of(data: Seq<u8>) -> Seq<u8>;

/// The URL-safe base64 character for a six-bit value.
pub open spec fn sextet_char(v: int) -> u8 {
    if v < 26 {
        (65 + v) as u8
    } else if v < 52 {
        (71 + v) as u8
    } else if v < 62 {
        (v - 4) as u8
    } else if v == 62 {
        45u8
    } else {
        95u8
    }
}

/// URL-safe base64 of `s` without padding: each group of three bytes becomes
/// four characters, a trailing group of one or two bytes two or three.
pub open spec fn b64url(s: Seq<u8>) -> Seq<u8>
    decreases s.len(),
{
    if s.len() == 0 {
        seq![]
    } else if s.len() == 1 {
        seq![sextet_char((s[0] as int) / 4), sextet_char(((s[0] as int) % 4) * 16)]
    } else if s.len() == 2 {
        seq![
            sextet_char((s[0] as int) / 4),
            sextet_char(((s[0] as int) % 4) * 16 + (s[1] as int) / 16),
            sextet_char(((s[1] as int) % 16) * 4),
        ]
    } else {
        seq![
            sextet_char((s[0] as int) / 4),
            sextet_char(((s[0] as int) % 4) * 16 + (s[1] as int) / 16),
            sextet_char(((s[1] as int) % 16) * 4 + (s[2] as int) / 64),
            sextet_char((s[2] as int) % 64),
        ] + b64url(s.subrange(3, s.len() as int))
    }
}

/// The length of the unpadded base64 text of `n` bytes.
pub open spec fn b64url_len(n: nat) -> nat {
    4 * (n / 3) + if n % 3 == 0 { 0nat } else { (n % 3) + 1 }
}

/// A byte of the URL-safe base64 alphabet: letters, digits, `-` and `_`.
pub open spec fn is_url_safe_byte(c: u8) -> bool {
    (65 <= c <= 90) || (97 <= c <= 122) || (48 <= c <= 57) || c == 45 || c == 95
}

/// Text that can stand in an HTTP header value without escaping.
pub open spec fn is_header_safe(s: Seq<u8>) -> bool {
    forall|i: int| 0 <= i < s.len() ==> #[trigger] is_url_safe_byte(s[i])
}

/// The fingerprint of an asset's bytes.
pub open spec fn fingerprint_of(content: Seq<u8>) -> Seq<u8> {
    b64url(sha512_256_of(content))
}

/// Relies on ring::digest::digest with SHA512_256: 32 bytes that depend on the
/// input alone. It panics on inputs whose length in bits overflows a `u64`.
#[verifier::external_body]
fn sha512_256(data: &[u8]) -> (r: Vec<u8>)
    requires
        data@.len() < MAX_DIGEST_INPUT,
    ensures
        r@ == sha512_256_of(data@),
        r@.len() == 32,
{
    ring::digest::digest(&ring::digest::SHA512_256, data).as_ref().to_vec()
}

/// Relies on base64's URL_SAFE_NO_PAD engine `encode`: the unpadded URL-safe
/// base64 text of the input, as ASCII bytes. It panics where the length of
/// that text overflows a `usize`.
#[verifier::external_body]
fn encode_b64url(data: &[u8]) -> (r: Vec<u8>)
    requires
        b64url_len(data@.len()) <= usize::MAX,
    ensures
        r@ == b64url(data@),
{
    base64::Engine::encode(&base64::engine::general_purpose::URL_SAFE_NO_PAD, data).into_bytes()
}

proof fn lemma_sextet_char_safe(v: int)
    requires
        0 <= v < 64,
    ensures
        is_url_safe_byte(sextet_char(v)),
{
}

/// The unpadded base64 text of `s` has `b64url_len(s.len())` bytes, all of them
/// from the URL-safe alphabet.
pub proof fn lemma_b64url_shape(s: Seq<u8>)
    ensures
        b64url(s).len() == b64url_len(s.len()),
        is_header_safe(b64url(s)),
    decreases s.len(),
{
    if s.len() == 0 {
    } else if s.len() == 1 {
        lemma_sextet_char_safe((s[0] as int) / 4);
        lemma_sextet_char_safe(((s[0] as int) % 4) * 16);
    } else if s.len() == 2 {
        lemma_sextet_char_safe((s[0] as int) / 4);
        lemma_sextet_char_safe(((s[0] as int) % 4) * 16 + (s[1] as int) / 16);
        lemma_sextet_char_safe(((s[1] as int) % 16) * 4);
    } else {
        let rest = s.subrange(3, s.len() as int);
        lemma_b64url_shape(rest);
        lemma_sextet_char_safe((s[0] as int) / 4);
        lemma_sextet_char_safe(((s[0] as int) % 4) * 16 + (s[1] as int) / 16);
        lemma_sextet_char_safe(((s[1] as int) % 16) * 4 + (s[2] as int) / 64);
        lemma_sextet_char_safe((s[2] as int) % 64);
        let head = seq![
            sextet_char((s[0] as int) / 4),
            sextet_char(((s[0] as int) % 4) * 16 + (s[1] as int) / 16),
            sextet_char(((s[1] as int) % 16) * 4 + (s[2] as int) / 64),
            sextet_char((s[2] as int) % 64),
        ];
        assert(b64url(s) == head + b64url(rest));
        assert forall|i: int| 0 <= i < b64url(s).len() implies #[trigger] is_url_safe_byte(
            b64url(s)[i],
        ) by {
            if i >= 4 {
                assert(b64url(s)[i] == b64url(rest)[i - 4]);
            }
        }
    }
}

/// Every fingerprint has 43 bytes, all of them safe in a header value.
pub proof fn lemma_fingerprint_shape(content: Seq<u8>, digest: Seq<u8>)
    requires
        digest == sha512_256_of(content),
        digest.len() == 32,
    ensures
        fingerprint_of(content).len() == 43,
        is_header_safe(fingerprint_of(content)),
{
    lemma_b64url_shape(digest);
}

/// Determinism: equal bytes have equal fingerprints, whenever and wherever
/// they are computed.
pub proof fn lemma_fingerprint_deterministic(a: Seq<u8>, b: Seq<u8>)
    requires
        a == b,
    ensures
        fingerprint_of(a) == fingerprint_of(b),
{
}

/// Computes the fingerprint of `content`: the cache-validation token of an asset.
pub fn fingerprint(content: &[u8]) -> (r: Vec<u8>)
    requires
        content@.len() < MAX_DIGEST_INPUT,
    ensures
        r@ == fingerprint_of(content@),
        r@.len() == 43,
        is_header_safe(r@),
{
    let digest = sha512_256(content);
    let r = encode_b64url(digest.as_slice());
    proof {
        lemma_fingerprint_shape(content@, digest@);
    }
    r
}

} // verus!
