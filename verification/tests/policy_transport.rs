//! The compression policy, status conversion, and body preparation.

use expo_server_sdk::errors::ExpoNotificationError;
use expo_server_sdk::policy::{should_compress, GzipPolicy};
use expo_server_sdk::transport::{check_status, prepare_body};
use std::io::Read;

#[test]
fn never_policy_refuses_every_length() {
    assert!(!should_compress(&GzipPolicy::Never, 0));
    assert!(!should_compress(&GzipPolicy::Never, 1));
    assert!(!should_compress(&GzipPolicy::Never, 123456));
    assert!(!should_compress(&GzipPolicy::Never, usize::MAX));
}

#[test]
fn always_policy_accepts_every_length() {
    assert!(should_compress(&GzipPolicy::Always, 0));
    assert!(should_compress(&GzipPolicy::Always, 1));
    assert!(should_compress(&GzipPolicy::Always, 123456));
    assert!(should_compress(&GzipPolicy::Always, usize::MAX));
}

#[test]
fn threshold_comparison_is_strict() {
    let policy = GzipPolicy::ZipGreaterThanTreshold(1024);
    assert!(!should_compress(&policy, 1023));
    assert!(!should_compress(&policy, 1024));
    assert!(should_compress(&policy, 1025));
    let zero = GzipPolicy::ZipGreaterThanTreshold(0);
    assert!(!should_compress(&zero, 0));
    assert!(should_compress(&zero, 1));
}

#[test]
fn default_policy_is_never() {
    assert_eq!(GzipPolicy::default(), GzipPolicy::Never);
}

#[test]
fn two_hundreds_are_success() {
    assert_eq!(check_status(200), Ok(()));
    assert_eq!(check_status(204), Ok(()));
    assert_eq!(check_status(299), Ok(()));
}

#[test]
fn non_two_hundreds_are_transport_errors_carrying_the_status() {
    assert_eq!(
        check_status(199),
        Err(ExpoNotificationError::Transport(Some(199)))
    );
    assert_eq!(
        check_status(301),
        Err(ExpoNotificationError::Transport(Some(301)))
    );
    assert_eq!(
        check_status(404),
        Err(ExpoNotificationError::Transport(Some(404)))
    );
    assert_eq!(
        check_status(500),
        Err(ExpoNotificationError::Transport(Some(500)))
    );
}

#[test]
fn uncompressed_body_passes_through_unchanged() {
    let payload = b"[{\"to\":\"x\"}]".to_vec();
    let prepared = prepare_body(&GzipPolicy::Never, payload.clone()).unwrap();
    assert!(!prepared.gzipped);
    assert_eq!(prepared.body, payload);
}

#[test]
fn threshold_at_exact_length_does_not_compress() {
    let payload = vec![65u8; 64];
    let prepared = prepare_body(&GzipPolicy::ZipGreaterThanTreshold(64), payload.clone()).unwrap();
    assert!(!prepared.gzipped);
    assert_eq!(prepared.body, payload);
}

#[test]
fn compressed_body_is_real_gzip_of_the_payload() {
    let payload = b"a moderately repetitive payload payload payload payload".to_vec();
    let prepared = prepare_body(&GzipPolicy::Always, payload.clone()).unwrap();
    assert!(prepared.gzipped);
    assert_ne!(prepared.body, payload);
    let mut decoder = flate2::read::GzDecoder::new(prepared.body.as_slice());
    let mut out = Vec::new();
    decoder.read_to_end(&mut out).unwrap();
    assert_eq!(out, payload);
}

#[test]
fn headers_always_announce_json_and_accepted_encodings() {
    let headers = expo_server_sdk::transport::request_headers(false, &None);
    let expected = vec![
        ("Accept", "application/json"),
        ("Accept-Encoding", "gzip"),
        ("Accept-Encoding", "deflate"),
        ("Content-Type", "application/json"),
    ];
    assert_eq!(headers.len(), expected.len());
    for (got, want) in headers.iter().zip(expected.iter()) {
        assert_eq!(got.0, want.0);
        assert_eq!(got.1, want.1);
    }
}

#[test]
fn headers_add_content_encoding_and_bearer_when_called_for() {
    let auth = Some(String::from("token-abc"));
    let headers = expo_server_sdk::transport::request_headers(true, &auth);
    assert_eq!(headers.len(), 6);
    assert_eq!(headers[4].0, "Content-Encoding");
    assert_eq!(headers[4].1, "gzip");
    assert_eq!(headers[5].0, "Authorization");
    assert_eq!(headers[5].1, "Bearer token-abc");
    let headers = expo_server_sdk::transport::request_headers(false, &auth);
    assert_eq!(headers.len(), 5);
    assert_eq!(headers[4].0, "Authorization");
    assert_eq!(headers[4].1, "Bearer token-abc");
}
