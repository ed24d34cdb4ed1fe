use std::io::Write as _;

use flate2::{write::GzEncoder, Compression};
use kobo_server::{
    body_for_log, compress_gzip, decode_response_body, decompress_gzip, encode_body_bytes, encode_response_body,
    is_gzip_encoded, BodyError, ErrorStatus, Header,
};

const TEST_TEXT: &str = "Hello, World! This is a test string for compression.";
const EMPTY_TEXT: &str = "";

fn create_gzipped_bytes(text: &str) -> Vec<u8> {
    let mut encoder = GzEncoder::new(Vec::new(), Compression::default());
    encoder.write_all(text.as_bytes()).unwrap();
    encoder.finish().unwrap()
}

fn content_encoding(value: &str) -> Vec<Header> {
    vec![Header::new("content-encoding", value.as_bytes())]
}

#[test]
fn test_decompress_gzip_success() {
    let bytes = create_gzipped_bytes(TEST_TEXT);
    let text = decompress_gzip(&bytes).unwrap();
    assert_eq!(text, TEST_TEXT);
}

#[test]
fn test_decompress_gzip_empty() {
    let bytes = create_gzipped_bytes(EMPTY_TEXT);
    let text = decompress_gzip(&bytes).unwrap();
    assert_eq!(text, EMPTY_TEXT);
}

#[test]
fn test_decompress_gzip_invalid_data() {
    let invalid_data = b"not gzipped data";
    let result = decompress_gzip(&invalid_data[..]);
    assert!(result.is_err());
}

#[test]
fn test_compress_gzip_success() {
    let compressed = compress_gzip(TEST_TEXT).unwrap();
    let decompressed = decompress_gzip(&compressed).unwrap();
    assert_eq!(decompressed, TEST_TEXT);
}

#[test]
fn test_compress_gzip_empty() {
    let compressed = compress_gzip(EMPTY_TEXT).unwrap();
    let decompressed = decompress_gzip(&compressed).unwrap();
    assert_eq!(decompressed, EMPTY_TEXT);
}

#[test]
fn test_is_gzip_encoded_true() {
    let headers = content_encoding("gzip");
    assert!(is_gzip_encoded(&headers));
}

#[test]
fn test_is_gzip_encoded_false_no_header() {
    let headers: Vec<Header> = Vec::new();
    assert!(!is_gzip_encoded(&headers));
}

#[test]
fn test_is_gzip_encoded_false_different_encoding() {
    let headers = content_encoding("deflate");
    assert!(!is_gzip_encoded(&headers));
}

#[test]
fn test_is_gzip_encoded_false_multiple_encodings() {
    let headers = content_encoding("br, gzip");
    assert!(!is_gzip_encoded(&headers));
}

#[test]
fn is_gzip_encoded_reads_the_first_field_only() {
    let headers = vec![
        Header::new("content-type", b"application/json"),
        Header::new("content-encoding", b"deflate"),
        Header::new("content-encoding", b"gzip"),
    ];
    assert!(!is_gzip_encoded(&headers));
}

#[test]
fn is_gzip_encoded_is_exact_about_the_value() {
    assert!(!is_gzip_encoded(&content_encoding("gzip ")));
    assert!(!is_gzip_encoded(&content_encoding("gzi")));
    assert!(!is_gzip_encoded(&content_encoding("")));
}

#[test]
fn test_decode_response_body_plain_text() {
    let result = decode_response_body(TEST_TEXT.as_bytes(), false);
    assert!(result.is_ok());
}

#[test]
fn test_decode_response_body_plain_text_content() {
    let decoded = decode_response_body(TEST_TEXT.as_bytes(), false).unwrap();
    assert_eq!(decoded, TEST_TEXT);
}

#[test]
fn test_decode_response_body_gzipped() {
    let bytes = create_gzipped_bytes(TEST_TEXT);
    let result = decode_response_body(&bytes, true);
    assert!(result.is_ok());
}

#[test]
fn test_decode_response_body_gzipped_content() {
    let bytes = create_gzipped_bytes(TEST_TEXT);
    let decoded = decode_response_body(&bytes, true).unwrap();
    assert_eq!(decoded, TEST_TEXT);
}

#[test]
fn test_decode_response_body_invalid_utf8() {
    let invalid_utf8 = vec![0xFF, 0xFE, 0xFD];
    let result = decode_response_body(&invalid_utf8, false);
    assert!(result.is_ok());
}

#[test]
fn test_decode_response_body_invalid_utf8_uses_replacement_chars() {
    let invalid_utf8 = vec![0xFF, 0xFE, 0xFD];
    let decoded = decode_response_body(&invalid_utf8, false).unwrap();
    assert!(decoded.contains('\u{FFFD}'));
}

#[test]
fn decode_response_body_lossy_keeps_the_valid_parts() {
    let bytes = vec![b'a', 0xFF, b'b'];
    let decoded = decode_response_body(&bytes, false).unwrap();
    assert_eq!(decoded, "a\u{FFFD}b");
}

#[test]
fn test_decode_response_body_gzip_error() {
    let result = decode_response_body(b"not gzipped", true);
    assert!(result.is_err());
}

#[test]
fn test_decode_response_body_gzip_error_status() {
    let error = decode_response_body(b"not gzipped", true).unwrap_err();
    assert_eq!(error, ErrorStatus::InternalServerError);
    assert_eq!(error.code(), 500);
}

#[test]
fn decode_response_body_gzip_must_hold_utf8() {
    let mut encoder = GzEncoder::new(Vec::new(), Compression::default());
    encoder.write_all(&[0xFF, 0xFE]).unwrap();
    let bytes = encoder.finish().unwrap();
    assert_eq!(decode_response_body(&bytes, true), Err(ErrorStatus::InternalServerError));
    assert_eq!(decompress_gzip(&bytes), Err(BodyError::Decompress));
}

#[test]
fn decode_response_body_empty_input() {
    assert_eq!(decode_response_body(&[], false).unwrap(), "");
    assert!(decode_response_body(&[], true).is_err());
}

#[test]
fn test_encode_response_body_plain() {
    let result = encode_response_body(TEST_TEXT, false);
    assert!(result.is_ok());
}

#[test]
fn test_encode_response_body_plain_content() {
    let bytes = encode_response_body(TEST_TEXT, false).unwrap();
    assert_eq!(bytes, TEST_TEXT.as_bytes());
}

#[test]
fn test_encode_response_body_compressed() {
    let result = encode_response_body(TEST_TEXT, true);
    assert!(result.is_ok());
}

#[test]
fn test_encode_response_body_compressed_content() {
    let bytes = encode_response_body(TEST_TEXT, true).unwrap();
    assert_ne!(bytes, TEST_TEXT.as_bytes());
    let decompressed = decompress_gzip(&bytes).unwrap();
    assert_eq!(decompressed, TEST_TEXT);
}

#[test]
fn test_encode_response_body_empty_compressed() {
    let result = encode_response_body(EMPTY_TEXT, true);
    assert!(result.is_ok());
}

#[test]
fn test_encode_response_body_empty_compressed_content() {
    let bytes = encode_response_body(EMPTY_TEXT, true).unwrap();
    assert!(!bytes.is_empty());
    let decompressed = decompress_gzip(&bytes).unwrap();
    assert_eq!(decompressed, EMPTY_TEXT);
}

#[test]
fn encode_body_bytes_compresses_only_when_asked() {
    let raw = TEST_TEXT.as_bytes();
    assert_eq!(encode_body_bytes(raw, false).unwrap(), raw);
    let compressed = encode_body_bytes(raw, true).unwrap();
    assert_eq!(&compressed[..2], &[0x1f, 0x8b]);
    assert_eq!(decompress_gzip(&compressed).unwrap(), TEST_TEXT);
}

#[test]
fn test_round_trip_compression_test_text() {
    let compressed = compress_gzip(TEST_TEXT).unwrap();
    let decompressed = decompress_gzip(&compressed).unwrap();
    assert_eq!(decompressed, TEST_TEXT);
}

#[test]
fn test_round_trip_compression_empty_text() {
    let compressed = compress_gzip(EMPTY_TEXT).unwrap();
    let decompressed = decompress_gzip(&compressed).unwrap();
    assert_eq!(decompressed, EMPTY_TEXT);
}

#[test]
fn test_round_trip_compression_single_char() {
    let sample_text = "a";
    let compressed = compress_gzip(sample_text).unwrap();
    let decompressed = decompress_gzip(&compressed).unwrap();
    assert_eq!(decompressed, sample_text);
}

#[test]
fn test_round_trip_compression_unicode() {
    let sample_text = "\u{1F680}";
    let compressed = compress_gzip(sample_text).unwrap();
    let decompressed = decompress_gzip(&compressed).unwrap();
    assert_eq!(decompressed, sample_text);
}

#[test]
fn encode_then_decode_gives_the_text_back() {
    for text in ["", "a", "caf\u{e9} \u{1F680} \u{4e2d}\u{6587}", TEST_TEXT] {
        for compress in [false, true] {
            let bytes = encode_response_body(text, compress).unwrap();
            assert_eq!(decode_response_body(&bytes, compress).unwrap(), text);
        }
    }
}

#[test]
fn body_for_log_shows_text_or_a_marker() {
    let gz = create_gzipped_bytes(TEST_TEXT);
    assert_eq!(body_for_log(&gz, true), TEST_TEXT);
    assert_eq!(body_for_log(TEST_TEXT.as_bytes(), false), TEST_TEXT);
    assert_eq!(body_for_log(b"not gzipped", true), "<unprintable body>");
}
