//! Content hashing: BLAKE3 digests of canonical text, written in lowercase
//! hexadecimal.
//!
//! JSON text is brought to a canonical form before it is hashed, so that the
//! order of object keys and insignificant whitespace never change a hash.

use vstd::prelude::*;
use vstd::string::*;
use vstd::utf8::*;
use crate::text::{push_char, str_eq, strip_whitespace, without_whitespace};

verus! {

#[verifier::external_type_specification]
#[verifier::external_body]
pub struct ExJsonValue(serde_json::Value);

#[verifier::external_type_specification]
#[verifier::external_body]
pub struct ExJsonError(serde_json::Error);

/// The 32-byte BLAKE3 digest of a byte string.
pub uninterp spec fn blake3_of(input: Seq<u8>) -> Seq<u8>;

/// The compact JSON text of a parsed document: no insignificant whitespace,
/// the members of every object in ascending key order, arrays in their own
/// order.
pub uninterp spec fn json_text(value: serde_json::Value) -> Seq<char>;

/// The canonical text of the JSON document that `text` holds, or `None`
/// where `text` is not one JSON document.
pub uninterp spec fn canonical_json(text: Seq<char>) -> Option<Seq<char>>;

/// `blake3::hash`: the digest of `input`, as its 32 bytes.
#[verifier::external_body]
fn blake3_digest(input: &[u8]) -> (digest: [u8; 32])
    ensures
        digest@ == blake3_of(input@),
{
    *blake3::hash(input).as_bytes()
}

/// `serde_json::from_str` at type `serde_json::Value`: parses one JSON
/// document. On success the value holds the document's canonical text; it
/// fails exactly where the text has no canonical form.
#[verifier::external_body]
fn parse_json(text: &str) -> (r: Result<serde_json::Value, serde_json::Error>)
    ensures
        match r {
            Ok(value) => canonical_json(text@) == Some(json_text(value)),
            Err(_) => canonical_json(text@) is None,
        },
{
    serde_json::from_str::<serde_json::Value>(text)
}

/// `serde_json::Value`'s `Display`: the compact text of the value.
#[verifier::external_body]
fn render_json(value: &serde_json::Value) -> (s: String)
    ensures
        s@ == json_text(*value),
{
    value.to_string()
}

/// The lowercase hexadecimal digit of a value below sixteen.
pub open spec fn hex_digit(n: u8) -> char {
    if n == 0 {
        '0'
    } else if n == 1 {
        '1'
    } else if n == 2 {
        '2'
    } else if n == 3 {
        '3'
    } else if n == 4 {
        '4'
    } else if n == 5 {
        '5'
    } else if n == 6 {
        '6'
    } else if n == 7 {
        '7'
    } else if n == 8 {
        '8'
    } else if n == 9 {
        '9'
    } else if n == 10 {
        'a'
    } else if n == 11 {
        'b'
    } else if n == 12 {
        'c'
    } else if n == 13 {
        'd'
    } else if n == 14 {
        'e'
    } else {
        'f'
    }
}

/// Two digits for every byte, the high nibble first.
pub open spec fn hex_of(bytes: Seq<u8>) -> Seq<char>
    decreases bytes.len(),
{
    if bytes.len() == 0 {
        Seq::empty()
    } else {
        hex_of(bytes.drop_last()).push(hex_digit(bytes.last() / 16)).push(
            hex_digit(bytes.last() % 16),
        )
    }
}

pub proof fn lemma_hex_len(bytes: Seq<u8>)
    ensures
        hex_of(bytes).len() == 2 * bytes.len(),
    decreases bytes.len(),
{
    if bytes.len() > 0 {
        lemma_hex_len(bytes.drop_last());
    }
}

fn hex_digit_exec(n: u8) -> (c: char)
    requires
        n < 16,
    ensures
        c == hex_digit(n),
{
    if n == 0 {
        '0'
    } else if n == 1 {
        '1'
    } else if n == 2 {
        '2'
    } else if n == 3 {
        '3'
    } else if n == 4 {
        '4'
    } else if n == 5 {
        '5'
    } else if n == 6 {
        '6'
    } else if n == 7 {
        '7'
    } else if n == 8 {
        '8'
    } else if n == 9 {
        '9'
    } else if n == 10 {
        'a'
    } else if n == 11 {
        'b'
    } else if n == 12 {
        'c'
    } else if n == 13 {
        'd'
    } else if n == 14 {
        'e'
    } else {
        'f'
    }
}

/// Writes bytes in lowercase hexadecimal.
pub fn to_hex(bytes: &[u8]) -> (s: String)
    ensures
        s@ == hex_of(bytes@),
{
    let mut s = String::new();
    let n = bytes.len();
    let mut i: usize = 0;
    while i < n
        invariant
            n == bytes@.len(),
            i <= n,
            s@ == hex_of(bytes@.take(i as int)),
        decreases n - i,
    {
        let b = bytes[i];
        proof {
            assert(bytes@.take(i + 1).drop_last() == bytes@.take(i as int));
            assert(bytes@.take(i + 1).last() == b);
        }
        push_char(&mut s, hex_digit_exec(b / 16));
        push_char(&mut s, hex_digit_exec(b % 16));
        i += 1;
    }
    assert(bytes@.take(n as int) == bytes@);
    s
}

/// The hexadecimal BLAKE3 digest of a text's UTF-8 encoding.
pub open spec fn digest_hex(text: Seq<char>) -> Seq<char> {
    hex_of(blake3_of(encode_utf8(text)))
}

/// The hash under which an intent with the given canonical text is cached.
pub open spec fn intent_hash_of(canonical: Seq<char>) -> Seq<char> {
    "intent_"@ + digest_hex(canonical)
}

/// The form in which JSON text is hashed: its canonical text where it is a
/// JSON document, else the text without its whitespace.
pub open spec fn normal_form(json: Seq<char>) -> Seq<char> {
    match canonical_json(json) {
        Some(canonical) => canonical,
        None => without_whitespace(json),
    }
}

/// A digest is 64 hexadecimal digits.
pub proof fn lemma_digest_hex_len(digest: [u8; 32])
    ensures
        hex_of(digest@).len() == 64,
{
    lemma_hex_len(digest@);
}

/// Hashes a text and writes the digest in hexadecimal.
pub fn hash_text(text: &str) -> (hex: String)
    ensures
        hex@ == digest_hex(text@),
{
    let digest = blake3_digest(text.as_bytes());
    to_hex(digest.as_slice())
}

/// Parses JSON text and writes it back in canonical form.
pub fn canonicalize_json(json: &str) -> (r: Option<String>)
    ensures
        match r {
            Some(text) => canonical_json(json@) == Some(text@),
            None => canonical_json(json@) is None,
        },
{
    match parse_json(json) {
        Ok(value) => Some(render_json(&value)),
        Err(_) => None,
    }
}

/// Brings JSON text to the form in which it is hashed.
pub fn normalize_json(json: &str) -> (normal: String)
    ensures
        normal@ == normal_form(json@),
{
    match canonicalize_json(json) {
        Some(text) => text,
        None => strip_whitespace(json),
    }
}

/// The hash of an intent given as text in normal form.
pub fn hash_normalized(normal: &str) -> (hash: String)
    ensures
        hash@ == intent_hash_of(normal@),
{
    let mut hash = String::from_str("intent_");
    let hex = hash_text(normal);
    hash.append(hex.as_str());
    hash
}

/// The hash of an intent given as JSON text. Key order and whitespace in
/// the text do not change it.
pub fn hash_intent_json(json: &str) -> (hash: String)
    ensures
        hash@ == intent_hash_of(normal_form(json@)),
{
    let normal = normalize_json(json);
    hash_normalized(normal.as_str())
}

/// Whether `hash` is the hash of the intent given as JSON text.
pub fn verify_hash(json: &str, hash: &str) -> (ok: bool)
    ensures
        ok == (hash@ == intent_hash_of(normal_form(json@))),
{
    let computed = hash_intent_json(json);
    str_eq(computed.as_str(), hash)
}

} // verus!
