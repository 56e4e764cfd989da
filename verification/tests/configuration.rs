//! The client configuration and the message builder.

use expo_server_sdk::client::ExpoNotificationsClient;
use expo_server_sdk::message::{PushMessage, PushToken};
use expo_server_sdk::policy::GzipPolicy;

#[test]
fn defaults_match_the_gateway() {
    let client = ExpoNotificationsClient::new();
    assert_eq!(client.push_url, "https://exp.host/--/api/v2/push/send");
    assert_eq!(
        client.receipt_url,
        "https://exp.host/--/api/v2/push/getReceipts"
    );
    assert!(client.authorization.is_none());
    assert_eq!(client.gzip, GzipPolicy::Never);
    assert_eq!(client.push_chunk_size, 100);
    assert_eq!(client.receipt_chunk_size, 300);
}

#[test]
fn builders_replace_exactly_their_field() {
    let client = ExpoNotificationsClient::new()
        .push_url(String::from("https://example.test/push"))
        .receipt_url(String::from("https://example.test/receipts"))
        .authorization(Some(String::from("test-bearer-token")))
        .gzip(GzipPolicy::ZipGreaterThanTreshold(2048))
        .push_chunk_size(50)
        .receipt_chunk_size(10);
    assert_eq!(client.push_url, "https://example.test/push");
    assert_eq!(client.receipt_url, "https://example.test/receipts");
    assert_eq!(client.authorization.as_deref(), Some("test-bearer-token"));
    assert_eq!(client.gzip, GzipPolicy::ZipGreaterThanTreshold(2048));
    assert_eq!(client.push_chunk_size, 50);
    assert_eq!(client.receipt_chunk_size, 10);
}

#[test]
fn the_message_builder_sets_each_field_once() {
    let token = PushToken::from_string(String::from("ExpoPushToken[zz]")).unwrap();
    let msg = PushMessage::new(token)
        .title("title text")
        .body("body text")
        .priority("normal")
        .ttl(60);
    assert_eq!(msg.to.as_str(), "ExpoPushToken[zz]");
    assert_eq!(msg.title.as_deref(), Some("title text"));
    assert_eq!(msg.body.as_deref(), Some("body text"));
    assert_eq!(msg.priority.as_deref(), Some("normal"));
    assert_eq!(msg.ttl, Some(60));
}
