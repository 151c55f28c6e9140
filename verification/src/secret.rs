//! The secret by which webhooks are signed.

use base64::Engine;
use rand::RngCore;
use vstd::prelude::*;

verus! {

/// The character of the URL-safe alphabet for a value below 64.
pub open spec fn url_char(value: int) -> char {
    if value < 26 {
        (65 + value) as char
    } else if value < 52 {
        (71 + value) as char
    } else if value < 62 {
        (value - 4) as char
    } else if value == 62 {
        '-'
    } else {
        '_'
    }
}

/// A byte, or zero past the end.
pub open spec fn byte_at(bytes: Seq<u8>, at: int) -> int {
    if 0 <= at < bytes.len() {
        bytes[at] as int
    } else {
        0
    }
}

/// The six bits of the bytes that a character stands for.
pub open spec fn sextet(bytes: Seq<u8>, index: int) -> int {
    let group = 3 * (index / 4);
    if index % 4 == 0 {
        byte_at(bytes, group) / 4
    } else if index % 4 == 1 {
        byte_at(bytes, group) % 4 * 16 + byte_at(bytes, group + 1) / 16
    } else if index % 4 == 2 {
        byte_at(bytes, group + 1) % 16 * 4 + byte_at(bytes, group + 2) / 64
    } else {
        byte_at(bytes, group + 2) % 64
    }
}

/// Bytes in URL-safe Base64 without padding.
pub open spec fn base64_url(bytes: Seq<u8>) -> Seq<char> {
    Seq::new((4 * bytes.len() + 2) / 3, |index: int| url_char(sextet(bytes, index)))
}

/// `base64`'s `URL_SAFE_NO_PAD` engine, by its `encode`: the bits of the bytes in
/// groups of six, the last filled up with zeros, each group as one character of the
/// URL-safe alphabet.
#[verifier::external_body]
fn encode_url(bytes: &[u8; 32]) -> (text: String)
    ensures
        text@ == base64_url(bytes@),
{
    base64::engine::general_purpose::URL_SAFE_NO_PAD.encode(bytes)
}

/// 32 bytes from `rand::rng`, by its `fill_bytes`. Which ones is left to chance.
#[verifier::external_body]
fn random_bytes() -> (bytes: [u8; 32]) {
    let mut bytes = [0_u8; 32];
    rand::rng().fill_bytes(&mut bytes);
    bytes
}

/// A secret made of the given bytes.
pub fn secret_of(bytes: &[u8; 32]) -> (secret: String)
    ensures
        secret@ == base64_url(bytes@),
        secret@.len() == 43,
{
    encode_url(bytes)
}

/// A new secret: 32 random bytes, in URL-safe Base64 without padding.
pub fn generate_webhook_secret() -> (secret: String)
    ensures
        exists|bytes: Seq<u8>| bytes.len() == 32 && secret@ == #[trigger] base64_url(bytes),
        secret@.len() == 43,
{
    let bytes = random_bytes();
    let secret = secret_of(&bytes);
    assert(bytes@.len() == 32);
    secret
}

/// Two secrets are the same only where their bytes are.
pub proof fn secrets_tell_bytes_apart(left: Seq<u8>, right: Seq<u8>)
    requires
        left.len() == 32,
        right.len() == 32,
        base64_url(left) == base64_url(right),
    ensures
        left == right,
{
    assert forall|i: int| 0 <= i < 32 implies left[i] == right[i] by {
        let first = 4 * (i / 3) + i % 3;
        lemma_sextets_agree(left, right, first);
        lemma_sextets_agree(left, right, first + 1);
        lemma_byte_of_sextets(left, i);
        lemma_byte_of_sextets(right, i);
    }
    assert(left =~= right);
}

/// Where two texts agree, so do the bits that a character stands for.
proof fn lemma_sextets_agree(left: Seq<u8>, right: Seq<u8>, index: int)
    requires
        left.len() == 32,
        right.len() == 32,
        base64_url(left) == base64_url(right),
        0 <= index < 43,
    ensures
        sextet(left, index) == sextet(right, index),
{
    assert(base64_url(left)[index] == url_char(sextet(left, index)));
    assert(base64_url(right)[index] == url_char(sextet(right, index)));
    lemma_sextet_range(left, index);
    lemma_sextet_range(right, index);
}

/// Six bits are a value below 64.
proof fn lemma_sextet_range(bytes: Seq<u8>, index: int)
    requires
        0 <= index,
    ensures
        0 <= sextet(bytes, index) < 64,
{
    let group = 3 * (index / 4);
    let (a, b, c) = (byte_at(bytes, group), byte_at(bytes, group + 1), byte_at(bytes, group + 2));
    assert(0 <= a < 256 && 0 <= b < 256 && 0 <= c < 256);
}

/// A byte can be read off the characters that stand for it.
proof fn lemma_byte_of_sextets(bytes: Seq<u8>, i: int)
    requires
        0 <= i < bytes.len(),
    ensures
        ({
            let first = 4 * (i / 3) + i % 3;
            bytes[i] as int == if i % 3 == 0 {
                sextet(bytes, first) * 4 + sextet(bytes, first + 1) / 16
            } else if i % 3 == 1 {
                sextet(bytes, first) % 16 * 16 + sextet(bytes, first + 1) / 4
            } else {
                sextet(bytes, first) % 4 * 64 + sextet(bytes, first + 1)
            }
        }),
{
    let group = 3 * (i / 3);
    let first = 4 * (i / 3) + i % 3;
    assert(first / 4 == i / 3 && first % 4 == i % 3);
    assert((first + 1) / 4 == i / 3 && (first + 1) % 4 == i % 3 + 1);
    assert(group + i % 3 == i);
    let (a, b, c) = (byte_at(bytes, group), byte_at(bytes, group + 1), byte_at(bytes, group + 2));
    assert(0 <= a < 256 && 0 <= b < 256 && 0 <= c < 256);
}

/// A secret is written in the letters, the digits, the hyphen and the underscore, and each
/// stands for its own six bits.
pub proof fn secrets_use_the_url_alphabet(value: int)
    requires
        0 <= value < 64,
    ensures
        url_char(value)
            == "ABCDEFGHIJKLMNOPQRSTUVWXYZabcdefghijklmnopqrstuvwxyz0123456789-_"@[value],
{
    reveal_strlit("ABCDEFGHIJKLMNOPQRSTUVWXYZabcdefghijklmnopqrstuvwxyz0123456789-_");
}

} // verus!
