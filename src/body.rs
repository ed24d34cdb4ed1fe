//! Buffered HTTP bodies: gzip detection, decoding to text and encoding back.

use vstd::prelude::*;
use vstd::utf8::*;

use crate::error::ErrorStatus;
use crate::headers::{header_value, bytes_eq, bytes_to_vec, first_value, Header, CONTENT_ENCODING};

verus! {

broadcast use {encode_utf8_valid_utf8, encode_utf8_decode_utf8};

/// What flate2's gzip decoder yields when it reads `b` to the end: the
/// inflated bytes, or `None` where it reports a malformed stream.
pub uninterp spec fn gunzip(b: Seq<u8>) -> Option<Seq<u8>>;

/// What flate2's encoder makes of `b` at the default level: the gzip
/// stream it writes, or `None` where it reports a failure.
pub uninterp spec fn gzip_of(b: Seq<u8>) -> Option<Seq<u8>>;

/// The text that `String::from_utf8_lossy` makes of bytes that are not UTF-8.
pub uninterp spec fn lossy_of_invalid(b: Seq<u8>) -> Seq<char>;

/// The text that `String::from_utf8_lossy` makes of `b`.
pub open spec fn utf8_lossy(b: Seq<u8>) -> Seq<char> {
    if valid_utf8(b) {
        decode_utf8(b)
    } else {
        lossy_of_invalid(b)
    }
}

/// The text that a gzip stream holds: present when the stream inflates and
/// what it inflates to is UTF-8.
pub open spec fn gunzip_text(b: Seq<u8>) -> Option<Seq<char>> {
    match gunzip(b) {
        Some(t) => if valid_utf8(t) {
            Some(decode_utf8(t))
        } else {
            None
        },
        None => None,
    }
}

/// Relies on flate2's `read::GzDecoder`, read to the end with
/// `Read::read_to_string`: it fails where the stream is malformed (its
/// header parser wants ten bytes starting `1f 8b 08`) or the inflated bytes
/// are not UTF-8, and otherwise hands back those bytes as text.
#[verifier::external_body]
fn inflate_to_string(b: &[u8]) -> (r: Option<String>)
    ensures
        match r {
            Some(s) => gunzip(b@) == Some(encode_utf8(s@)),
            None => !(gunzip(b@) matches Some(t) && valid_utf8(t)),
        },
        b@.len() < 10 || b@[0] != 0x1f || b@[1] != 0x8b || b@[2] != 8 ==> r is None,
{
    let mut decoder = flate2::read::GzDecoder::new(b);
    let mut text = String::new();
    match std::io::Read::read_to_string(&mut decoder, &mut text) {
        Ok(_) => Some(text),
        Err(_) => None,
    }
}

/// Relies on flate2's `write::GzEncoder` with `Compression::default()`,
/// written to a `Vec` and finished: its output is the gzip stream of the
/// input, which flate2's decoder inflates back to the input.
#[verifier::external_body]
fn deflate_bytes(b: &[u8]) -> (r: Option<Vec<u8>>)
    ensures
        match r {
            Some(z) => gzip_of(b@) == Some(z@),
            None => gzip_of(b@) is None,
        },
        r matches Some(z) ==> gunzip(z@) == Some(b@),
{
    let mut encoder = flate2::write::GzEncoder::new(Vec::new(), flate2::Compression::default());
    match std::io::Write::write_all(&mut encoder, b) {
        Ok(()) => encoder.finish().ok(),
        Err(_) => None,
    }
}

/// Relies on `String::from_utf8_lossy`: valid UTF-8 becomes the text it
/// encodes, and each invalid sequence becomes U+FFFD.
#[verifier::external_body]
fn lossy_to_string(b: &[u8]) -> (r: String)
    ensures
        valid_utf8(b@) ==> r@ == decode_utf8(b@),
        !valid_utf8(b@) ==> r@ == lossy_of_invalid(b@),
        !valid_utf8(b@) ==> r@.contains('\u{FFFD}'),
{
    String::from_utf8_lossy(b).into_owned()
}

/// Why a body could not be turned into text or back.
#[derive(Clone, Copy, Debug, PartialEq, Eq, Structural)]
pub enum BodyError {
    /// The gzip stream is malformed or does not hold UTF-8 text.
    Decompress,
    /// The gzip encoder reported a failure.
    Compress,
}

/// Inflates a gzip stream that holds UTF-8 text.
pub fn decompress_gzip(bytes: &[u8]) -> (r: Result<String, BodyError>)
    ensures
        match r {
            Ok(s) => gunzip_text(bytes@) == Some(s@),
            Err(e) => gunzip_text(bytes@) is None && e == BodyError::Decompress,
        },
{
    match inflate_to_string(bytes) {
        Some(s) => Ok(s),
        None => Err(BodyError::Decompress),
    }
}

/// Compresses the UTF-8 bytes of `text` into a gzip stream.
pub fn compress_gzip(text: &str) -> (r: Result<Vec<u8>, BodyError>)
    ensures
        match r {
            Ok(z) => gzip_of(encode_utf8(text@)) == Some(z@) && gunzip_text(z@) == Some(text@),
            Err(e) => gzip_of(encode_utf8(text@)) is None && e == BodyError::Compress,
        },
{
    match deflate_bytes(text.as_bytes()) {
        Some(z) => Ok(z),
        None => Err(BodyError::Compress),
    }
}

/// The one `content-encoding` value that marks a body as gzip.
pub const GZIP: &'static str = "gzip";

/// Text written when a body cannot be shown.
pub const UNPRINTABLE_BODY: &'static str = "<unprintable body>";

/// Whether headers mark their body as gzip: the first `content-encoding`
/// field is exactly `gzip`. A list such as `br, gzip` is not.
pub open spec fn is_gzip(hs: Seq<Header>) -> bool {
    first_value(hs, CONTENT_ENCODING@) == Some(encode_utf8(GZIP@))
}

/// The text a buffered body holds: inflated first where it is gzip,
/// decoded leniently where it is not.
pub open spec fn decoded(b: Seq<u8>, is_gzipped: bool) -> Option<Seq<char>> {
    if is_gzipped {
        gunzip_text(b)
    } else {
        Some(utf8_lossy(b))
    }
}

/// The bytes a body is sent as: compressed, or as they are. `None` where
/// the encoder fails.
pub open spec fn encoded(b: Seq<u8>, should_compress: bool) -> Option<Seq<u8>> {
    if should_compress {
        gzip_of(b)
    } else {
        Some(b)
    }
}

/// Checks whether a body is gzip-encoded from its headers.
pub fn is_gzip_encoded(headers: &Vec<Header>) -> (r: bool)
    ensures
        r == is_gzip(headers@),
{
    match header_value(headers, CONTENT_ENCODING) {
        Some(v) => bytes_eq(v.as_slice(), GZIP.as_bytes()),
        None => false,
    }
}

/// Decodes a buffered body to text: gzip is inflated and must hold UTF-8;
/// plain bytes are decoded with U+FFFD for each invalid sequence.
pub fn decode_response_body(bytes: &[u8], is_gzipped: bool) -> (r: Result<String, ErrorStatus>)
    ensures
        match r {
            Ok(s) => decoded(bytes@, is_gzipped) == Some(s@),
            Err(e) => decoded(bytes@, is_gzipped) is None && e == ErrorStatus::InternalServerError,
        },
        !is_gzipped ==> r is Ok,
        is_gzipped && gunzip(bytes@) is None ==> r is Err,
{
    if is_gzipped {
        match decompress_gzip(bytes) {
            Ok(s) => Ok(s),
            Err(_) => Err(ErrorStatus::InternalServerError),
        }
    } else {
        Ok(lossy_to_string(bytes))
    }
}

/// Encodes body bytes for sending, compressing them where asked to.
pub fn encode_body_bytes(bytes: &[u8], should_compress: bool) -> (r: Result<Vec<u8>, ErrorStatus>)
    ensures
        match r {
            Ok(b) => encoded(bytes@, should_compress) == Some(b@)
                && (should_compress ==> gunzip(b@) == Some(bytes@)),
            Err(e) => encoded(bytes@, should_compress) is None && e == ErrorStatus::InternalServerError,
        },
        !should_compress ==> r is Ok,
{
    if should_compress {
        match deflate_bytes(bytes) {
            Some(z) => Ok(z),
            None => Err(ErrorStatus::InternalServerError),
        }
    } else {
        Ok(bytes_to_vec(bytes))
    }
}

/// Encodes text into a body, gzip-compressed where asked to. What it returns
/// decodes, with the same choice of compression, to `text` again.
pub fn encode_response_body(text: &str, should_compress: bool) -> (r: Result<Vec<u8>, ErrorStatus>)
    ensures
        match r {
            Ok(b) => encoded(encode_utf8(text@), should_compress) == Some(b@),
            Err(e) => encoded(encode_utf8(text@), should_compress) is None && e == ErrorStatus::InternalServerError,
        },
        !should_compress ==> r is Ok,
        r matches Ok(b) ==> decoded(b@, should_compress) == Some(text@),
{
    encode_body_bytes(text.as_bytes(), should_compress)
}

/// Uncompressed text survives encoding and decoding: the UTF-8 bytes of
/// any text decode back to that text. (For gzip, the same holds of every
/// body `encode_response_body` returns; its contract says so.)
pub proof fn lemma_plain_round_trip(text: Seq<char>)
    ensures
        decoded(encode_utf8(text), false) == Some(text),
        encoded(encode_utf8(text), false) == Some(encode_utf8(text)),
{
}

/// The text under which a body is logged: what it decodes to, or a marker
/// where it does not decode.
pub fn body_for_log(bytes: &[u8], is_gzipped: bool) -> (r: String)
    ensures
        match decoded(bytes@, is_gzipped) {
            Some(t) => r@ == t,
            None => r@ == UNPRINTABLE_BODY@,
        },
{
    match decode_response_body(bytes, is_gzipped) {
        Ok(s) => s,
        Err(_) => UNPRINTABLE_BODY.to_string(),
    }
}

} // verus!
