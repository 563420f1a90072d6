//! Text codecs: URL-safe base64 as the vault sends it, standard base64 as the
//! key store keeps it, and the flat JSON object of the key store.

use crate::dict::Dict;
use crate::json::{json_string_map, parse_string_map};
use base64::engine::general_purpose;
use base64::Engine;
use vstd::prelude::*;
use vstd::slice::slice_to_vec;
use vstd::utf8::{decode_utf8, encode_utf8, valid_utf8};

verus! {

/// The padding character of base64, `=`.
pub const PAD_BYTE: u8 = 0x3d;

/// A text is not base64 of the expected alphabet and padding.
#[derive(Debug, Clone, Copy, PartialEq, Eq, Structural)]
pub struct EncodingError;

/// The standard base64 text, with padding, of `bytes`.
pub uninterp spec fn base64_standard_text(bytes: Seq<u8>) -> Seq<char>;

/// The bytes that the standard base64 text `text`, given by its UTF-8 bytes,
/// stands for; `None` where it is not canonical standard base64 with padding.
pub uninterp spec fn base64_standard_bytes(text: Seq<u8>) -> Option<Seq<u8>>;

/// The bytes that the URL-safe base64 text `text`, given by its UTF-8 bytes,
/// stands for; `None` where it is not canonical URL-safe base64 with padding.
pub uninterp spec fn base64_url_safe_bytes(text: Seq<u8>) -> Option<Seq<u8>>;

/// The text that lossy UTF-8 decoding makes of `bytes`: the text that the
/// bytes encode, with the replacement character for what is not UTF-8.
pub uninterp spec fn utf8_lossy_text(bytes: Seq<u8>) -> Seq<char>;

/// Length of the padded base64 text of `len` bytes.
pub open spec fn encoded_len(len: nat) -> nat {
    4 * ((len + 2) / 3)
}

/// Whether the base64 text of `len` bytes fits in memory.
pub open spec fn encodable(len: nat) -> bool {
    encoded_len(len) <= usize::MAX
}

/// `count` padding characters.
pub open spec fn padding(count: nat) -> Seq<u8> {
    Seq::new(count, |i: int| PAD_BYTE)
}

/// `text` with as many `=` behind it as bring its length to a multiple of 4.
pub open spec fn padded(text: Seq<u8>) -> Seq<u8> {
    text + padding(((4 - text.len() % 4) % 4) as nat)
}

/// What URL-safe decoding of `text` yields. A length of 1 modulo 4 is never
/// base64 and is refused outright; any other text is padded and decoded.
pub open spec fn url_safe_decoded(text: Seq<u8>) -> Result<Seq<u8>, EncodingError> {
    if text.len() % 4 == 1 {
        Err(EncodingError)
    } else {
        match base64_url_safe_bytes(padded(text)) {
            Some(bytes) => Ok(bytes),
            None => Err(EncodingError),
        }
    }
}

/// What standard decoding of `text` yields.
pub open spec fn standard_decoded(text: Seq<u8>) -> Result<Seq<u8>, EncodingError> {
    match base64_standard_bytes(text) {
        Some(bytes) => Ok(bytes),
        None => Err(EncodingError),
    }
}

/// Whether the executable result `r` is the outcome `expected`.
pub open spec fn is_decoded(r: Result<Vec<u8>, EncodingError>, expected: Result<
    Seq<u8>,
    EncodingError,
>) -> bool {
    match expected {
        Ok(bytes) => r is Ok && r->Ok_0@ == bytes,
        Err(_) => r is Err,
    }
}

/// Padding is optional: a text whose length is not 1 modulo 4 decodes to the
/// same bytes with and without its padding.
pub proof fn lemma_padding_is_optional(text: Seq<u8>)
    requires
        text.len() % 4 != 1,
    ensures
        padded(text).len() % 4 == 0,
        padded(padded(text)) == padded(text),
        url_safe_decoded(padded(text)) == url_safe_decoded(text),
{
    let full = padded(text);
    assert(full.len() % 4 == 0);
    assert(padding(0) =~= Seq::<u8>::empty());
    assert(padded(full) =~= full);
}

/// Whatever decodes from a text that is held in memory can be encoded again.
pub proof fn lemma_decoded_is_encodable(decoded_len: nat, text_len: nat)
    requires
        text_len % 4 == 0,
        text_len <= usize::MAX,
        decoded_len <= 3 * ((text_len + 3) / 4),
    ensures
        encodable(decoded_len),
{
}

/// A shorter byte string is encodable where a longer one is.
pub proof fn lemma_encodable_shorter(shorter: nat, longer: nat)
    requires
        shorter <= longer,
        encodable(longer),
    ensures
        encodable(shorter),
{
}

/// `Engine::encode` of the base64 crate on `general_purpose::STANDARD`.
/// Trusted: the result is the named `base64_standard_text`, and standard
/// decoding of that text gives the bytes back. The crate panics where the
/// length of the text overflows, which `requires` leaves out.
#[verifier::external_body]
fn standard_encode(bytes: &[u8]) -> (r: String)
    requires
        encodable(bytes@.len()),
    ensures
        r@ == base64_standard_text(bytes@),
        base64_standard_bytes(encode_utf8(r@)) == Some(bytes@),
{
    general_purpose::STANDARD.encode(bytes)
}

/// `Engine::decode` of the base64 crate on `general_purpose::STANDARD`.
/// Trusted: the result is the named `base64_standard_bytes`, and is no longer
/// than the buffer that the crate sizes for it, 3 bytes for every 4 of text.
#[verifier::external_body]
fn standard_decode(text: &[u8]) -> (r: Option<Vec<u8>>)
    ensures
        r is Some <==> base64_standard_bytes(text@) is Some,
        r matches Some(bytes) ==> base64_standard_bytes(text@) == Some(bytes@),
        r matches Some(bytes) ==> bytes.len() <= 3 * ((text.len() + 3) / 4),
{
    general_purpose::STANDARD.decode(text).ok()
}

/// `Engine::decode` of the base64 crate on `general_purpose::URL_SAFE`.
/// Trusted: the result is the named `base64_url_safe_bytes`, and is no longer
/// than the buffer that the crate sizes for it, 3 bytes for every 4 of text.
#[verifier::external_body]
fn url_safe_decode(text: &[u8]) -> (r: Option<Vec<u8>>)
    ensures
        r is Some <==> base64_url_safe_bytes(text@) is Some,
        r matches Some(bytes) ==> base64_url_safe_bytes(text@) == Some(bytes@),
        r matches Some(bytes) ==> bytes.len() <= 3 * ((text.len() + 3) / 4),
{
    general_purpose::URL_SAFE.decode(text).ok()
}

/// `String::from_utf8_lossy` of std. Trusted: the result is the named
/// `utf8_lossy_text`, which for bytes that are UTF-8 is the text they encode.
#[verifier::external_body]
pub(crate) fn lossy_text(bytes: &[u8]) -> (r: String)
    ensures
        r@ == utf8_lossy_text(bytes@),
        valid_utf8(bytes@) ==> r@ == decode_utf8(bytes@),
{
    String::from_utf8_lossy(bytes).into_owned()
}

/// Copies `text` and pads it to a multiple of 4 characters.
fn pad_to_quad(text: &[u8]) -> (r: Vec<u8>)
    ensures
        r@ == padded(text@),
        r@.len() % 4 == 0,
{
    let mut out = slice_to_vec(text);
    let missing: usize = (4 - text.len() % 4) % 4;
    let mut added: usize = 0;
    while added < missing
        invariant
            added <= missing,
            out@ == text@ + padding(added as nat),
        decreases missing - added,
    {
        out.push(PAD_BYTE);
        added = added + 1;
        assert(out@ =~= text@ + padding(added as nat));
    }
    out
}

/// Decodes URL-safe base64 as the vault sends it, with or without its
/// padding. Fails on a character outside the alphabet, on a length that no
/// base64 text has, and on padding that is not canonical.
pub fn url_safe_str_to_bytes(s: &str) -> (r: Result<Vec<u8>, EncodingError>)
    ensures
        is_decoded(r, url_safe_decoded(encode_utf8(s@))),
        r matches Ok(bytes) ==> encodable(bytes@.len()),
{
    let text = s.as_bytes();
    if text.len() % 4 == 1 {
        return Err(EncodingError);
    }
    let full = pad_to_quad(text);
    let decoded = url_safe_decode(full.as_slice());
    proof {
        if decoded is Some {
            lemma_decoded_is_encodable(decoded->Some_0@.len(), full@.len());
        }
    }
    match decoded {
        Some(bytes) => Ok(bytes),
        None => Err(EncodingError),
    }
}

/// Encodes bytes as standard base64 with padding, as the key store keeps
/// them. Decoding the text with `base64_to_bytes` gives the bytes back.
pub fn bytes_to_base64(b: &[u8]) -> (r: String)
    requires
        encodable(b@.len()),
    ensures
        r@ == base64_standard_text(b@),
        standard_decoded(encode_utf8(r@)) == Ok::<Seq<u8>, EncodingError>(b@),
{
    standard_encode(b)
}

/// Decodes standard base64 with padding.
pub fn base64_to_bytes(s: &str) -> (r: Result<Vec<u8>, EncodingError>)
    ensures
        is_decoded(r, standard_decoded(encode_utf8(s@))),
{
    match standard_decode(s.as_bytes()) {
        Some(bytes) => Ok(bytes),
        None => Err(EncodingError),
    }
}

/// The mapping that a JSON text stands for where it is an object whose
/// members are all strings, and the empty mapping for any other text.
pub open spec fn dict_of_json(text: Seq<char>) -> Map<Seq<char>, Seq<char>> {
    match json_string_map(text) {
        Some(mapping) => mapping,
        None => Map::empty(),
    }
}

/// Reads a JSON object of strings. Any other text gives the empty dictionary.
pub fn json_to_dict(json_str: &str) -> (r: Dict)
    ensures
        r@ == dict_of_json(json_str@),
{
    match parse_string_map(json_str) {
        Some(entries) => Dict::from_entries(entries),
        None => Dict::new(),
    }
}

} // verus!
