//! Verification of signed webhook bodies.

use crate::text::after_prefix;
use crate::text::chars_of;
use hmac::Mac;
use vstd::prelude::*;

verus! {

/// The size of an authentication code.
pub const TAG_BYTES: usize = 32;

/// The HMAC-SHA256 of a message under a key, as the `hmac` and `sha2` crates
/// compute it.
pub uninterp spec fn hmac_sha256(key: Seq<u8>, message: Seq<u8>) -> Seq<u8>;

/// Whether `tag` is the authentication code of `message` under `key`:
/// `hmac::Hmac::<sha2::Sha256>` takes a key of any length, is fed the message by
/// `update`, and its `verify_slice` accepts exactly the code that it has computed,
/// which has the output size of SHA-256.
#[verifier::external_body]
fn tag_matches(key: &[u8], message: &[u8], tag: &[u8]) -> (matches: bool)
    ensures
        matches == (tag@ == hmac_sha256(key@, message@)),
        matches ==> tag@.len() == TAG_BYTES,
{
    match hmac::Hmac::<sha2::Sha256>::new_from_slice(key) {
        Ok(mut mac) => {
            mac.update(message);
            mac.verify_slice(tag).is_ok()
        }
        Err(_) => false,
    }
}

/// The value of a hexadecimal digit.
pub open spec fn hex_value(digit: char) -> Option<int> {
    if '0' <= digit <= '9' {
        Some(digit as u32 - '0' as u32)
    } else if 'a' <= digit <= 'f' {
        Some(digit as u32 - 'a' as u32 + 10)
    } else if 'A' <= digit <= 'F' {
        Some(digit as u32 - 'A' as u32 + 10)
    } else {
        None
    }
}

/// The value of two characters as a hexadecimal number. A leading plus sign is
/// taken, as in any number.
pub open spec fn hex_byte(high: char, low: char) -> Option<u8> {
    match (hex_value(high), hex_value(low)) {
        (Some(first), Some(second)) => Some((16 * first + second) as u8),
        (None, Some(second)) => if high == '+' {
            Some(second as u8)
        } else {
            None
        },
        _ => None,
    }
}

/// The bytes that a hexadecimal text stands for.
pub open spec fn hex_decoded(text: Seq<char>) -> Option<Seq<u8>>
    decreases text.len(),
{
    if text.len() == 0 {
        Some(Seq::empty())
    } else if text.len() == 1 {
        None
    } else {
        let end = text.len() as int;
        match (hex_decoded(text.take(end - 2)), hex_byte(text[end - 2], text[end - 1])) {
            (Some(bytes), Some(byte)) => Some(bytes.push(byte)),
            _ => None,
        }
    }
}

fn hex_digit(digit: char) -> (value: Option<u8>)
    ensures
        match value {
            Some(value) => hex_value(digit) == Some(value as int) && value < 16,
            None => hex_value(digit) is None,
        },
{
    if '0' <= digit && digit <= '9' {
        Some(digit as u8 - 0x30)
    } else if 'a' <= digit && digit <= 'f' {
        Some(digit as u8 - 0x61 + 10)
    } else if 'A' <= digit && digit <= 'F' {
        Some(digit as u8 - 0x41 + 10)
    } else {
        None
    }
}

proof fn lemma_prefix_fails(text: Seq<char>, count: int)
    requires
        0 <= count <= text.len(),
        count % 2 == 0,
        text.len() % 2 == 0,
        hex_decoded(text.take(count)) is None,
    ensures
        hex_decoded(text) is None,
    decreases text.len() - count,
{
    if count == text.len() {
        assert(text.take(count) =~= text);
    } else {
        let longer = text.take(count + 2);
        assert(longer.take(count) =~= text.take(count));
        lemma_prefix_fails(text, count + 2);
    }
}

proof fn lemma_odd_fails(text: Seq<char>)
    requires
        text.len() % 2 == 1,
    ensures
        hex_decoded(text) is None,
    decreases text.len(),
{
    if text.len() > 1 {
        lemma_odd_fails(text.take(text.len() - 2));
    }
}

proof fn lemma_decoded_length(text: Seq<char>)
    ensures
        hex_decoded(text) matches Some(bytes) ==> text.len() == 2 * bytes.len(),
    decreases text.len(),
{
    if text.len() > 1 {
        lemma_decoded_length(text.take(text.len() - 2));
    }
}

/// The bytes that a hexadecimal text stands for.
pub fn hex_decode(value: &str) -> (bytes: Option<Vec<u8>>)
    ensures
        match bytes {
            Some(bytes) => hex_decoded(value@) == Some(bytes@),
            None => hex_decoded(value@) is None,
        },
{
    let chars = chars_of(value);
    let total: usize = chars.len();
    if total % 2 != 0 {
        proof {
            lemma_odd_fails(value@);
        }
        return None;
    }
    let mut bytes: Vec<u8> = Vec::new();
    let mut index: usize = 0;
    assert(value@.take(0) =~= Seq::<char>::empty());
    assert(bytes@ =~= Seq::<u8>::empty());
    while index < total
        invariant
            chars@ == value@,
            total == chars@.len(),
            total % 2 == 0,
            index % 2 == 0,
            index <= total,
            hex_decoded(value@.take(index as int)) == Some(bytes@),
        decreases total - index,
    {
        let high: char = chars[index];
        let low: char = chars[index + 1];
        proof {
            let longer = value@.take(index + 2);
            assert(longer.take(index as int) =~= value@.take(index as int));
            assert(longer[index as int] == high);
            assert(longer[index + 1] == low);
            assert(index + 2 <= total);
        }
        let byte: u8 = match (hex_digit(high), hex_digit(low)) {
            (Some(first), Some(second)) => 16 * first + second,
            (None, Some(second)) => {
                if high != '+' {
                    proof {
                        lemma_prefix_fails(value@, index + 2);
                    }
                    return None;
                }
                second
            },
            (_, None) => {
                proof {
                    lemma_prefix_fails(value@, index + 2);
                }
                return None;
            },
        };
        bytes.push(byte);
        index += 2;
    }
    assert(value@.take(index as int) =~= value@);
    Some(bytes)
}

/// Whether an encoded tag authenticates a message.
pub open spec fn authenticates(key: Seq<u8>, message: Seq<u8>, encoded: Seq<char>) -> bool {
    hex_decoded(encoded) == Some(hmac_sha256(key, message))
}

/// Whether a hexadecimal tag authenticates a message.
pub fn verify_tag(key: &[u8], message: &[u8], encoded: &str) -> (valid: bool)
    ensures
        valid == authenticates(key@, message@, encoded@),
        valid ==> encoded@.len() == 2 * TAG_BYTES,
{
    proof {
        lemma_decoded_length(encoded@);
    }
    match hex_decode(encoded) {
        Some(tag) => tag_matches(key, message, tag.as_slice()),
        None => false,
    }
}

/// Whether a signature with the scheme `sha256=` authenticates a message.
pub open spec fn is_signed(key: Seq<u8>, message: Seq<u8>, signature: Seq<char>) -> bool {
    match after_prefix(signature, "sha256="@) {
        Some(encoded) => authenticates(key, message, encoded),
        None => false,
    }
}

/// Whether a signature authenticates a message; the scheme may be left out.
pub open spec fn is_signed_plainly(key: Seq<u8>, message: Seq<u8>, signature: Seq<char>) -> bool {
    match after_prefix(signature, "sha256="@) {
        Some(encoded) => authenticates(key, message, encoded),
        None => authenticates(key, message, signature),
    }
}

/// The digit of a half-byte, in lower case.
pub open spec fn low_digit(value: int) -> char {
    if value < 10 {
        ('0' as u32 + value) as char
    } else {
        ('a' as u32 + value - 10) as char
    }
}

/// A half-byte of a byte string, in upper case.
pub open spec fn high_digit(value: int) -> char {
    if value < 10 {
        ('0' as u32 + value) as char
    } else {
        ('A' as u32 + value - 10) as char
    }
}

/// Bytes as hexadecimal digits, two for each, the more significant one first.
pub open spec fn hex_of(bytes: Seq<u8>, upper: bool) -> Seq<char> {
    Seq::new(
        2 * bytes.len(),
        |i: int|
            {
                let value = if i % 2 == 0 {
                    bytes[i / 2] as int / 16
                } else {
                    bytes[i / 2] as int % 16
                };
                if upper {
                    high_digit(value)
                } else {
                    low_digit(value)
                }
            },
    )
}

/// The hexadecimal digits of bytes stand for those bytes, in either case.
pub proof fn hexadecimal_digits_stand_for_their_bytes(bytes: Seq<u8>, upper: bool)
    ensures
        hex_decoded(hex_of(bytes, upper)) == Some(bytes),
    decreases bytes.len(),
{
    let text = hex_of(bytes, upper);
    if bytes.len() == 0 {
        assert(bytes =~= Seq::<u8>::empty());
    } else {
        let earlier = bytes.drop_last();
        hexadecimal_digits_stand_for_their_bytes(earlier, upper);
        let end = text.len() as int;
        assert(text.take(end - 2) =~= hex_of(earlier, upper));
        let last = bytes[bytes.len() - 1];
        assert((end - 2) / 2 == bytes.len() - 1 && (end - 1) / 2 == bytes.len() - 1);
        assert((end - 2) % 2 == 0 && (end - 1) % 2 == 1);
        assert(last as int == 16 * (last as int / 16) + last as int % 16);
        assert(earlier.push(last) =~= bytes);
    }
}

} // verus!
