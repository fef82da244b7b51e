//! Hashes and the text they are taken of.

use vstd::prelude::*;
use vstd::utf8::*;

use sha2::Digest;

verus! {

/// The SHA-256 hash of a sequence of bytes.
pub uninterp spec fn sha256_of(bytes: Seq<u8>) -> Seq<u8>;

/// `sha2::Sha256::digest`. The result is named; of the hash itself only its length is stated.
#[verifier::external_body]
fn sha256(bytes: &[u8]) -> (r: Vec<u8>)
    ensures
        r@ == sha256_of(bytes@),
        r@.len() == 32,
{
    sha2::Sha256::digest(bytes).to_vec()
}

/// The lower-case hexadecimal digit of a number below sixteen.
pub open spec fn hex_digit(n: int) -> char {
    if n < 10 {
        (48 + n) as char
    } else {
        (87 + n) as char
    }
}

/// Two lower-case hexadecimal digits per byte, the high one first.
pub open spec fn hex_text(bytes: Seq<u8>) -> Seq<char> {
    Seq::new(
        2 * bytes.len(),
        |i: int|
            if i % 2 == 0 {
                hex_digit(bytes[i / 2] as int / 16)
            } else {
                hex_digit(bytes[i / 2] as int % 16)
            },
    )
}

/// `hex::encode`: each byte as two lower-case hexadecimal digits.
#[verifier::external_body]
fn hex_encode(bytes: &[u8]) -> (r: String)
    ensures
        r@ == hex_text(bytes@),
{
    hex::encode(bytes)
}

/// The hexadecimal SHA-256 hash of a sequence of bytes.
pub open spec fn hash_text(bytes: Seq<u8>) -> Seq<char> {
    hex_text(sha256_of(bytes))
}

/// The hexadecimal SHA-256 hash of `bytes`: 64 lower-case digits.
pub fn file_hash(bytes: &[u8]) -> (r: String)
    ensures
        r@ == hash_text(bytes@),
        r@.len() == 64,
{
    let hash = sha256(bytes);
    hex_encode(hash.as_slice())
}

/// The hexadecimal SHA-256 hash of the UTF-8 encoding of `text`.
pub fn text_hash(text: &str) -> (r: String)
    ensures
        r@ == hash_text(encode_utf8(text@)),
        r@.len() == 64,
{
    file_hash(text.as_bytes())
}

/// How JSON writes one character of a string.
pub open spec fn json_escape(c: char) -> Seq<char> {
    let n = c as int;
    if c == '"' || c == '\\' {
        seq!['\\', c]
    } else if n == 8 {
        seq!['\\', 'b']
    } else if n == 9 {
        seq!['\\', 't']
    } else if n == 10 {
        seq!['\\', 'n']
    } else if n == 12 {
        seq!['\\', 'f']
    } else if n == 13 {
        seq!['\\', 'r']
    } else if n < 32 {
        seq!['\\', 'u', '0', '0', hex_digit(n / 16), hex_digit(n % 16)]
    } else {
        seq![c]
    }
}

/// The characters of a JSON string between its quotes.
pub open spec fn json_body(s: Seq<char>) -> Seq<char>
    decreases s.len(),
{
    if s.len() == 0 {
        Seq::empty()
    } else {
        json_body(s.drop_last()) + json_escape(s.last())
    }
}

/// A text as a JSON string.
pub open spec fn json_string(s: Seq<char>) -> Seq<char> {
    seq!['"'] + json_body(s) + seq!['"']
}

/// `serde_json::to_string` on a string slice: the text in double quotes, with quotes, backslashes
/// and the control characters below 32 escaped.
#[verifier::external_body]
pub(crate) fn json_string_of(s: &str) -> (r: String)
    ensures
        r@ == json_string(s@),
{
    serde_json::to_string(s).expect("a string is always representable")
}

/// The digest that stands for a text: the hash of its JSON form.
pub open spec fn text_digest(s: Seq<char>) -> Seq<char> {
    hash_text(encode_utf8(json_string(s)))
}

/// The digest that stands for `s`.
pub fn digest(s: &str) -> (r: String)
    ensures
        r@ == text_digest(s@),
        r@.len() == 64,
{
    let json = json_string_of(s);
    text_hash(json.as_str())
}

} // verus!
