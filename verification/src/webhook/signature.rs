//! Verification of the `X-Hub-Signature-256` header GitHub signs each delivery with.
use vstd::prelude::*;
use vstd::utf8::encode_utf8;

use hmac::{Hmac, KeyInit, Mac};
use sha2::Sha256;

use crate::text::chars_of;

verus! {

/// The HMAC-SHA256 tag of `message` under `key`, as the `hmac` and `sha2` crates compute it.
pub uninterp spec fn hmac_sha256(key: Seq<u8>, message: Seq<u8>) -> Seq<u8>;

/// `Mac::verify_slice` of `hmac` (after `new_from_slice` and `update`): whether `tag` is
/// the HMAC-SHA256 tag of `message` under `key`. The comparison is in constant time;
/// `new_from_slice` accepts keys of every length. The contract names the tag and
/// says that the answer is true exactly when `tag` equals it; `verify_slice` refuses
/// any tag whose length is not the 32 bytes of the SHA-256 output.
#[verifier::external_body]
fn hmac_sha256_verify(key: &[u8], message: &[u8], tag: &[u8]) -> (ok: bool)
    ensures
        ok == (tag@ == hmac_sha256(key@, message@)),
        ok ==> tag@.len() == 32,
{
    match <Hmac<Sha256> as KeyInit>::new_from_slice(key) {
        Ok(mut mac) => {
            mac.update(message);
            mac.verify_slice(tag).is_ok()
        },
        Err(_) => false,
    }
}

/// The value of a hexadecimal digit (either case).
pub open spec fn hex_value(c: char) -> int {
    if '0' <= c && c <= '9' {
        (c as u32) - ('0' as u32)
    } else if 'a' <= c && c <= 'f' {
        (c as u32) - ('a' as u32) + 10
    } else {
        (c as u32) - ('A' as u32) + 10
    }
}

/// Whether `c` is a hexadecimal digit, upper or lower case.
pub open spec fn is_hex_digit(c: char) -> bool {
    ('0' <= c && c <= '9') || ('a' <= c && c <= 'f') || ('A' <= c && c <= 'F')
}

/// Whether every character of `s` is a hexadecimal digit.
pub open spec fn all_hex(s: Seq<char>) -> bool {
    forall|i: int| 0 <= i < s.len() ==> is_hex_digit(#[trigger] s[i])
}

/// The bytes that the hexadecimal text `s` spells, two digits per byte, the high
/// digit first; none when the length is odd or a character is not a hex digit.
pub open spec fn hex_decode_spec(s: Seq<char>) -> Option<Seq<u8>> {
    if s.len() % 2 != 0 || !all_hex(s) {
        None
    } else {
        Some(Seq::new(s.len() / 2, |i: int| (hex_value(s[2 * i]) * 16 + hex_value(s[2 * i + 1])) as u8))
    }
}

/// `hex::decode`: the bytes of a hexadecimal text. The crate decodes the UTF-8 bytes
/// of `s`; a non-ASCII character is never a hex digit, so deciding on characters is
/// the same.
#[verifier::external_body]
fn hex_decode(s: &str) -> (r: Option<Vec<u8>>)
    ensures
        match r {
            Some(b) => hex_decode_spec(s@) == Some(b@),
            None => hex_decode_spec(s@) is None,
        },
{
    match hex::decode(s) {
        Ok(b) => Some(b),
        Err(_) => None,
    }
}

/// The lower-case hex digit for `n < 16`.
pub open spec fn hex_char(n: int) -> char {
    if n < 10 {
        (('0' as u32) + n) as char
    } else {
        (('a' as u32) + n - 10) as char
    }
}

/// The lower-case hexadecimal text of `b`, two digits per byte.
pub open spec fn hex_encode_spec(b: Seq<u8>) -> Seq<char> {
    Seq::new(2 * b.len(), |i: int| if i % 2 == 0 { hex_char(b[i / 2] as int / 16) } else { hex_char(b[i / 2] as int % 16) })
}

/// The prefix of the signature header.
pub open spec fn signature_prefix() -> Seq<char> {
    seq!['s', 'h', 'a', '2', '5', '6', '=']
}

/// Whether `header` is `sha256=` followed by the hexadecimal HMAC-SHA256 tag of
/// `body` under the UTF-8 bytes of `secret`.
pub open spec fn signature_valid(secret: Seq<char>, body: Seq<u8>, header: Seq<char>) -> bool {
    &&& header.len() >= 7
    &&& header.take(7) == signature_prefix()
    &&& match hex_decode_spec(header.skip(7)) {
        Some(tag) => tag == hmac_sha256(encode_utf8(secret), body),
        None => false,
    }
}

/// Verifies the GitHub `X-Hub-Signature-256` header value against the request body.
/// The header format is `sha256=<hex>`; the tag is compared in constant time.
pub fn verify(secret: &str, body: &[u8], header_value: &str) -> (ok: bool)
    ensures
        ok == signature_valid(secret@, body@, header_value@),
        ok ==> header_value@.len() == 7 + 64,
{
    let h = chars_of(header_value);
    if h.len() < 7 || h[0] != 's' || h[1] != 'h' || h[2] != 'a' || h[3] != '2' || h[4] != '5'
        || h[5] != '6' || h[6] != '=' {
        proof {
            if h@.len() >= 7 && h@.take(7) == signature_prefix() {
                assert(h@.take(7)[0] == 's');
                assert(h@.take(7)[6] == '=');
            }
        }
        return false;
    }
    proof {
        assert(h@.take(7) =~= signature_prefix());
    }
    let n = h.len();
    let hex_sig = header_value.substring_char(7, n);
    proof {
        assert(hex_sig@ =~= h@.skip(7));
    }
    let sig_bytes = match hex_decode(hex_sig) {
        Some(b) => b,
        None => {
            return false;
        },
    };
    hmac_sha256_verify(secret.as_bytes(), body, sig_bytes.as_slice())
}

proof fn lemma_hex_char(n: int)
    requires
        0 <= n < 16,
    ensures
        is_hex_digit(hex_char(n)),
        hex_value(hex_char(n)) == n,
{
}

/// Decoding the hexadecimal text of any bytes gives the bytes back.
pub proof fn lemma_hex_round_trip(b: Seq<u8>)
    ensures
        hex_decode_spec(hex_encode_spec(b)) == Some(b),
{
    let s = hex_encode_spec(b);
    assert forall|i: int| 0 <= i < s.len() implies is_hex_digit(#[trigger] s[i]) by {
        if i % 2 == 0 {
            lemma_hex_char(b[i / 2] as int / 16);
        } else {
            lemma_hex_char(b[i / 2] as int % 16);
        }
    }
    assert(s.len() % 2 == 0);
    let d = hex_decode_spec(s)->0;
    assert forall|i: int| 0 <= i < b.len() implies #[trigger] d[i] == b[i] by {
        assert((2 * i) / 2 == i);
        assert((2 * i + 1) / 2 == i);
        assert((2 * i) % 2 == 0);
        assert((2 * i + 1) % 2 == 1);
        lemma_hex_char(b[i] as int / 16);
        lemma_hex_char(b[i] as int % 16);
        assert(hex_value(s[2 * i]) == b[i] / 16);
        assert(hex_value(s[2 * i + 1]) == b[i] % 16);
        assert((b[i] / 16) * 16 + b[i] % 16 == b[i]);
    }
    assert(d =~= b);
}

/// A delivery signed with the secret is accepted: the header `sha256=` followed by the
/// lower-case hex of the HMAC-SHA256 tag of the body under the secret passes.
pub proof fn lemma_signed_delivery_accepted(secret: Seq<char>, body: Seq<u8>)
    ensures
        signature_valid(
            secret,
            body,
            signature_prefix() + hex_encode_spec(hmac_sha256(encode_utf8(secret), body)),
        ),
{
    let tag = hmac_sha256(encode_utf8(secret), body);
    let h = signature_prefix() + hex_encode_spec(tag);
    assert(h.take(7) =~= signature_prefix());
    assert(h.skip(7) =~= hex_encode_spec(tag));
    lemma_hex_round_trip(tag);
}

/// A delivery whose header carries any other tag is refused.
pub proof fn lemma_wrong_tag_refused(secret: Seq<char>, body: Seq<u8>, tag: Seq<u8>)
    requires
        tag != hmac_sha256(encode_utf8(secret), body),
    ensures
        !signature_valid(secret, body, signature_prefix() + hex_encode_spec(tag)),
{
    let h = signature_prefix() + hex_encode_spec(tag);
    assert(h.skip(7) =~= hex_encode_spec(tag));
    lemma_hex_round_trip(tag);
}

} // verus!
