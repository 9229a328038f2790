//! Content digests in hexadecimal.

use crate::json::hex_digit;
use crate::sizes::lemma_ascii_len;
use crate::text::byte_len;
use sha2::Digest;
use vstd::prelude::*;
use vstd::string::*;
use vstd::utf8::*;

verus! {

/// The SHA-256 digest of bytes, as `sha2::Sha256::digest` computes it.
pub uninterp spec fn sha256(bytes: Seq<u8>) -> Seq<u8>;

/// `sha2::Sha256::digest` hashes its input into 32 bytes; the digest depends on
/// the input alone.
#[verifier::external_body]
fn sha256_digest(bytes: &[u8]) -> (digest: Vec<u8>)
    ensures
        digest@ == sha256(bytes@),
        digest@.len() == 32,
{
    sha2::Sha256::digest(bytes).to_vec()
}

/// Two lower-case hexadecimal digits per byte.
pub open spec fn hex_text(bytes: Seq<u8>) -> Seq<char>
    decreases bytes.len(),
{
    if bytes.len() == 0 {
        seq![]
    } else {
        hex_text(bytes.drop_last()).push(hex_digit(bytes.last() as int / 16)).push(
            hex_digit(bytes.last() as int % 16),
        )
    }
}

/// The bytes of a SHA-256 digest.
pub const DIGEST_BYTES: usize = 32;

/// The SHA-256 digest of bytes, byte by byte.
pub open spec fn digest_bytes(bytes: Seq<u8>) -> Seq<u8> {
    Seq::new(DIGEST_BYTES as nat, |i: int| sha256(bytes)[i])
}

/// The SHA-256 digest of a text in hexadecimal.
pub open spec fn sha256_text(text: Seq<char>) -> Seq<char> {
    hex_text(digest_bytes(encode_utf8(text)))
}

proof fn lemma_hex_text(bytes: Seq<u8>)
    ensures
        hex_text(bytes).len() == 2 * bytes.len(),
        is_ascii_chars(hex_text(bytes)),
    decreases bytes.len(),
{
    if bytes.len() > 0 {
        lemma_hex_text(bytes.drop_last());
    }
}

/// A SHA-256 digest in hexadecimal takes 64 characters of one byte each.
pub proof fn law_digest_text_is_short(text: Seq<char>)
    ensures
        sha256_text(text).len() == 64,
        byte_len(sha256_text(text)) == 64,
{
    lemma_hex_text(digest_bytes(encode_utf8(text)));
    lemma_ascii_len(sha256_text(text));
}

fn hex_char(value: u8) -> (c: char)
    requires
        value < 16,
    ensures
        c == hex_digit(value as int),
{
    if value < 10 {
        (48 + value) as char
    } else {
        (97 + (value - 10)) as char
    }
}

/// Writes bytes in hexadecimal.
pub fn to_hex(bytes: &Vec<u8>) -> (text: String)
    ensures
        text@ == hex_text(bytes@),
{
    let mut text = String::new();
    let mut i: usize = 0;
    assert(bytes@.take(0) =~= seq![]);
    assert(text@ =~= seq![]);
    while i < bytes.len()
        invariant
            i <= bytes@.len(),
            text@ == hex_text(bytes@.take(i as int)),
        decreases bytes@.len() - i,
    {
        text.push(hex_char(bytes[i] / 16));
        text.push(hex_char(bytes[i] % 16));
        assert(bytes@.take(i + 1).drop_last() =~= bytes@.take(i as int));
        i = i + 1;
    }
    assert(bytes@.take(i as int) =~= bytes@);
    text
}

/// The SHA-256 digest of a text in hexadecimal.
pub fn sha256_hex(text: &str) -> (digest: String)
    ensures
        digest@ == sha256_text(text@),
        digest@.len() == 64,
{
    let digest = sha256_digest(text.as_bytes());
    proof {
        assert(digest@ =~= digest_bytes(encode_utf8(text@)));
        law_digest_text_is_short(text@);
    }
    to_hex(&digest)
}

/// A digest is written byte by byte, each in two hexadecimal digits.
pub proof fn law_digest_is_written_byte_by_byte(bytes: Seq<u8>, byte: u8)
    ensures
        hex_text(Seq::empty()) == Seq::<char>::empty(),
        hex_text(bytes.push(byte)) == hex_text(bytes) + seq![
            hex_digit(byte as int / 16),
            hex_digit(byte as int % 16),
        ],
        forall|value: int|
            0 <= value < 10 ==> #[trigger] hex_digit(value) == (48 + value) as char,
        forall|value: int|
            10 <= value < 16 ==> #[trigger] hex_digit(value) == (87 + value) as char,
{
    assert(bytes.push(byte).drop_last() =~= bytes);
    assert(hex_text(bytes.push(byte)) =~= hex_text(bytes) + seq![
        hex_digit(byte as int / 16),
        hex_digit(byte as int % 16),
    ]);
}

/// The digest of a text is that of its bytes, all thirty-two of them in order.
pub proof fn law_digest_text_is_that_of_its_bytes(text: Seq<char>)
    ensures
        sha256(encode_utf8(text)).len() == 32 ==> sha256_text(text) == hex_text(
            sha256(encode_utf8(text)),
        ),
{
    if sha256(encode_utf8(text)).len() == 32 {
        assert(digest_bytes(encode_utf8(text)) =~= sha256(encode_utf8(text)));
    }
}

} // verus!
