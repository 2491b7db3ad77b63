use flate2::read::GzDecoder;
use http_core::encoding::{carry, carry_compressed, encode, has_item, supports_gzip};
use http_core::error::Error;
use http_core::response::Status;
use std::io::Read;

fn field(name: &str, value: &str) -> (Vec<u8>, Vec<u8>) {
    (name.as_bytes().to_vec(), value.as_bytes().to_vec())
}

fn gunzip(stream: &[u8]) -> Vec<u8> {
    let mut out = Vec::new();
    GzDecoder::new(stream).read_to_end(&mut out).unwrap();
    out
}

#[test]
fn gzip_is_accepted() {
    assert!(supports_gzip(b"Accept-Encoding: gzip\r\n"));
    assert!(supports_gzip(b"Accept-Encoding: gzip, deflate\r\n"));
    assert!(supports_gzip(b"accept-encoding: deflate, gzip\r\n"));
    assert!(supports_gzip(b"ACCEPT-ENCODING:gzip\r\n"));
    assert!(supports_gzip(b"Host: a\r\nAccept-Encoding: br ,\tgzip , deflate\r\n"));
    assert!(supports_gzip(b"Accept-Encoding: gzip"));
    assert!(supports_gzip(b"Accept-Encoding: ,gzip,\r\n"));
}

#[test]
fn gzip_is_not_accepted() {
    assert!(!supports_gzip(b""));
    assert!(!supports_gzip(b"Host: a\r\n"));
    assert!(!supports_gzip(b"Accept-Encoding: deflate\r\n"));
    assert!(!supports_gzip(b"Accept-Encoding: GZIP\r\n"));
    assert!(!supports_gzip(b"Accept-Encoding: Gzip\r\n"));
    assert!(!supports_gzip(b"Accept-Encoding: gzip;q=1.0\r\n"));
    assert!(!supports_gzip(b"Accept-Encoding: *\r\n"));
    assert!(!supports_gzip(b"Accept-Encoding: x-gzip\r\n"));
    assert!(!supports_gzip(b"Accept-Encoding: gzip deflate\r\n"));
    assert!(!supports_gzip(b"Accept-Encoding:\r\n"));
    assert!(!supports_gzip(b"Accept-Encoding\r\n"));
    assert!(!supports_gzip(b"X-Accept-Encoding: gzip\r\n"));
}

#[test]
fn only_the_first_accept_encoding_line_counts() {
    assert!(!supports_gzip(b"Accept-Encoding: deflate\r\nAccept-Encoding: gzip\r\n"));
    assert!(supports_gzip(b"Accept-Encoding: gzip\r\nAccept-Encoding: deflate\r\n"));
}

#[test]
fn items_of_a_list() {
    assert!(has_item(b"a, b, c", b"b"));
    assert!(has_item(b"a,b,c", b"c"));
    assert!(has_item(b" a ", b"a"));
    assert!(has_item(b"", b""));
    assert!(has_item(b"a,,b", b""));
    assert!(has_item(b"a,", b""));
    assert!(!has_item(b"a, b, c", b"d"));
    assert!(!has_item(b"a, b, c", b"a, b"));
    assert!(!has_item(b"ab", b"a"));
    assert!(!has_item(b"a", b""));
}

#[test]
fn plain_response_carries_the_payload_itself() {
    let r = encode(b"text/plain", b"hello", b"Host: a\r\n").unwrap();
    assert_eq!(r.status, Status::Success);
    assert_eq!(r.headers, vec![field("Content-Type", "text/plain"), field("Content-Length", "5")]);
    assert_eq!(r.body, b"hello".to_vec());
}

#[test]
fn plain_response_to_an_empty_payload() {
    let r = encode(b"text/plain", b"", b"").unwrap();
    assert_eq!(r.headers, vec![field("Content-Type", "text/plain"), field("Content-Length", "0")]);
    assert!(r.body.is_empty());
}

#[test]
fn gzipped_response_carries_the_stream() {
    let payload = b"hello hello hello hello hello hello hello hello";
    let r = encode(b"application/octet-stream", payload, b"Accept-Encoding: gzip\r\n").unwrap();
    assert_eq!(r.status, Status::Success);
    assert_eq!(r.headers.len(), 3);
    assert_eq!(r.headers[0], field("Content-Type", "application/octet-stream"));
    assert_eq!(r.headers[1], field("Content-Encoding", "gzip"));
    assert_eq!(r.headers[2], field("Content-Length", &r.body.len().to_string()));
    assert_ne!(r.body, payload.to_vec());
    assert_eq!(&r.body[..3], &[0x1f, 0x8b, 8]);
    assert_eq!(gunzip(&r.body), payload.to_vec());
}

#[test]
fn gzipped_response_to_an_empty_payload() {
    let r = encode(b"text/plain", b"", b"Accept-Encoding: gzip\r\n").unwrap();
    assert!(!r.body.is_empty());
    assert_eq!(r.headers[2], field("Content-Length", &r.body.len().to_string()));
    assert_eq!(gunzip(&r.body), Vec::<u8>::new());
}

#[test]
fn gzip_stream_depends_on_the_payload_alone() {
    let headers = b"Accept-Encoding: gzip\r\n";
    let a = encode(b"text/plain", b"some payload", headers).unwrap();
    let b = encode(b"application/octet-stream", b"some payload", b"accept-encoding:gzip").unwrap();
    assert_eq!(a.body, b.body);
    let c = encode(b"text/plain", b"some payloae", headers).unwrap();
    assert_ne!(a.body, c.body);
}

#[test]
fn gzip_inverts_on_every_byte_value() {
    let payload: Vec<u8> = (0..2000u32).map(|i| (i * 7 % 256) as u8).collect();
    let r = encode(b"application/octet-stream", &payload, b"Accept-Encoding: gzip\r\n").unwrap();
    assert_eq!(gunzip(&r.body), payload);
}

#[test]
fn carrying_a_body() {
    let r = carry(b"text/plain", b"abc".to_vec(), false);
    assert_eq!(r.headers, vec![field("Content-Type", "text/plain"), field("Content-Length", "3")]);
    assert_eq!(r.body, b"abc".to_vec());
    let r = carry(b"text/plain", b"abcdefghijkl".to_vec(), true);
    assert_eq!(
        r.headers,
        vec![
            field("Content-Type", "text/plain"),
            field("Content-Encoding", "gzip"),
            field("Content-Length", "12"),
        ]
    );
    assert_eq!(r.body, b"abcdefghijkl".to_vec());
}

#[test]
fn compressor_outcome_decides() {
    let r = carry_compressed(b"text/plain", Ok(vec![1, 2, 3])).unwrap();
    assert_eq!(r, carry(b"text/plain", vec![1, 2, 3], true));
    let failure = std::io::Error::new(std::io::ErrorKind::Other, "failed");
    assert_eq!(carry_compressed(b"text/plain", Err(failure)), Err(Error::Compression));
}
