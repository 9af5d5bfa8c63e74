//! Identifiers and secrets drawn at random, and digests of them.

use vstd::prelude::*;
use vstd::utf8::*;

verus! {

/// The lower-case hexadecimal digit for a number below sixteen.
pub open spec fn hex_digit(d: int) -> char {
    if d < 10 {
        (d + '0' as int) as char
    } else {
        (d - 10 + 'a' as int) as char
    }
}

/// Bytes in lower-case hexadecimal, two digits a byte, the high one first.
pub open spec fn hex_text(bytes: Seq<u8>) -> Seq<char> {
    Seq::new(
        2 * bytes.len(),
        |i: int| hex_digit(if i % 2 == 0 { bytes[i / 2] as int / 16 } else { bytes[i / 2] as int % 16 }),
    )
}

/// `hex::encode`: lower-case hexadecimal.
#[verifier::external_body]
pub(crate) fn hex_string(bytes: &[u8]) -> (r: String)
    ensures
        r@ == hex_text(bytes@),
{
    hex::encode(bytes)
}

/// The SHA-256 digest of a message.
pub uninterp spec fn sha256(message: Seq<u8>) -> Seq<u8>;

/// `sha2::Sha256::digest`: a function of the message, thirty-two bytes long.
#[verifier::external_body]
pub(crate) fn sha256_digest(message: &[u8]) -> (r: Vec<u8>)
    ensures
        r@ == sha256(message@),
        r@.len() == 32,
{
    <sha2::Sha256 as sha2::Digest>::digest(message).to_vec()
}

/// What is kept of a token in place of the token: its digest, in hexadecimal.
pub open spec fn token_digest(token: Seq<char>) -> Seq<char> {
    hex_text(sha256(encode_utf8(token)))
}

/// The digest that stands for a token.
pub fn token_hash(token: &str) -> (r: String)
    ensures
        r@ == token_digest(token@),
{
    let digest = sha256_digest(token.as_bytes());
    hex_string(digest.as_slice())
}

/// `uuid::Uuid::new_v4`: sixteen bytes, random but for the version, which is 4, and the variant,
/// whose two bits are `10`.
#[verifier::external_body]
pub(crate) fn random_uuid() -> (r: [u8; 16])
    ensures
        r@[6] / 16 == 4,
        r@[8] / 64 == 2,
{
    uuid::Uuid::new_v4().into_bytes()
}

/// The hyphenated form of a UUID.
pub open spec fn uuid_text(bytes: Seq<u8>) -> Seq<char> {
    hex_text(bytes.subrange(0, 4)) + seq!['-'] + hex_text(bytes.subrange(4, 6)) + seq!['-']
        + hex_text(bytes.subrange(6, 8)) + seq!['-'] + hex_text(bytes.subrange(8, 10)) + seq!['-']
        + hex_text(bytes.subrange(10, 16))
}

/// The `Display` of `uuid::Uuid`: hyphenated, in lower case.
#[verifier::external_body]
pub(crate) fn uuid_string(bytes: [u8; 16]) -> (r: String)
    ensures
        r@ == uuid_text(bytes@),
{
    uuid::Uuid::from_bytes(bytes).to_string()
}

/// Whether a text is the hyphenated form of a random UUID.
pub open spec fn is_random_id(s: Seq<char>) -> bool {
    exists|bytes: Seq<u8>| bytes.len() == 16 && bytes[6] / 16 == 4 && bytes[8] / 64 == 2 && s == #[trigger] uuid_text(bytes)
}

/// A fresh row identifier.
pub fn new_id() -> (r: String)
    ensures
        is_random_id(r@),
{
    let bytes = random_uuid();
    uuid_string(bytes)
}

/// `rand::rng` and `rand::Rng::fill_bytes`: twenty-four random bytes.
#[verifier::external_body]
pub(crate) fn random_secret() -> (r: [u8; 24])
{
    let mut bytes = [0u8; 24];
    rand::Rng::fill_bytes(&mut rand::rng(), &mut bytes);
    bytes
}

/// A random identifier has the form of a UUID of version 4: thirty-six characters, hyphens in their four
/// places, and the version where it belongs.
pub proof fn law_identifiers_are_random_uuids(s: Seq<char>)
    requires
        is_random_id(s),
    ensures
        s.len() == 36,
        s[8] == '-',
        s[13] == '-',
        s[18] == '-',
        s[23] == '-',
        s[14] == '4',
{
    let bytes = choose|bytes: Seq<u8>|
        bytes.len() == 16 && bytes[6] / 16 == 4 && bytes[8] / 64 == 2 && s == #[trigger] uuid_text(
            bytes,
        );
    assert(hex_text(bytes.subrange(6, 8))[0] == hex_digit(bytes[6] as int / 16));
    assert(s[14] == hex_text(bytes.subrange(6, 8))[0]);
}

/// Bytes can be read back from their hexadecimal form: each takes two digits, its high half first.
pub proof fn law_hexadecimal_has_two_digits_a_byte(bytes: Seq<u8>, i: int)
    requires
        0 <= i < bytes.len(),
    ensures
        hex_text(bytes).len() == 2 * bytes.len(),
        hex_text(bytes)[2 * i] == hex_digit(bytes[i] as int / 16),
        hex_text(bytes)[2 * i + 1] == hex_digit(bytes[i] as int % 16),
{
    assert((2 * i) / 2 == i && (2 * i + 1) / 2 == i);
}

} // verus!
