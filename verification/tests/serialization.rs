//! Exact wire bodies produced by the streaming serializer.

use expo_server_sdk::dispatch::{build_push_chunk_request, build_receipt_chunk_request};
use expo_server_sdk::errors::ExpoNotificationError;
use expo_server_sdk::message::{PushMessage, PushToken};
use expo_server_sdk::policy::GzipPolicy;
use expo_server_sdk::response::PushReceiptId;
use expo_server_sdk::serialize::{serialize_ids_into_json_list, serialize_into_json_list};

fn token(s: &str) -> PushToken {
    PushToken::from_string(String::from(s)).unwrap()
}

#[test]
fn empty_token_is_rejected() {
    assert!(PushToken::from_string(String::new()).is_none());
    assert_eq!(token("ExpoPushToken[abc]").as_str(), "ExpoPushToken[abc]");
}

#[test]
fn one_bare_message_renders_as_a_singleton_array() {
    let msg = PushMessage::new(token("ExpoPushToken[abc]"));
    let mut buffer = Vec::new();
    serialize_into_json_list(&[msg], &mut buffer).unwrap();
    assert_eq!(buffer, b"[{\"to\":\"ExpoPushToken[abc]\"}]".to_vec());
}

#[test]
fn optional_fields_render_in_fixed_order() {
    let msg = PushMessage::new(token("ExpoPushToken[abc]"))
        .title("Hi")
        .body("there")
        .priority("high")
        .ttl(3600);
    let mut buffer = Vec::new();
    serialize_into_json_list(&[msg], &mut buffer).unwrap();
    let expected = "[{\"to\":\"ExpoPushToken[abc]\",\"title\":\"Hi\",\"body\":\"there\",\"priority\":\"high\",\"ttl\":3600}]";
    assert_eq!(String::from_utf8(buffer).unwrap(), expected);
}

#[test]
fn ttl_renders_zero_and_the_largest_value_exactly() {
    let mut buffer = Vec::new();
    let msg = PushMessage::new(token("t")).ttl(0);
    serialize_into_json_list(&[msg], &mut buffer).unwrap();
    assert_eq!(String::from_utf8(buffer).unwrap(), "[{\"to\":\"t\",\"ttl\":0}]");
    let mut buffer = Vec::new();
    let msg = PushMessage::new(token("t")).ttl(u32::MAX);
    serialize_into_json_list(&[msg], &mut buffer).unwrap();
    assert_eq!(
        String::from_utf8(buffer).unwrap(),
        "[{\"to\":\"t\",\"ttl\":4294967295}]"
    );
}

#[test]
fn string_contents_are_escaped() {
    let msg = PushMessage::new(token("t")).body("a\"b\\c\nd");
    let mut buffer = Vec::new();
    serialize_into_json_list(&[msg], &mut buffer).unwrap();
    assert_eq!(
        String::from_utf8(buffer).unwrap(),
        "[{\"to\":\"t\",\"body\":\"a\\\"b\\\\c\\u000ad\"}]"
    );
}

#[test]
fn two_messages_are_joined_by_a_comma() {
    let msgs = vec![
        PushMessage::new(token("a")),
        PushMessage::new(token("b")),
    ];
    let mut buffer = Vec::new();
    serialize_into_json_list(&msgs, &mut buffer).unwrap();
    assert_eq!(
        String::from_utf8(buffer).unwrap(),
        "[{\"to\":\"a\"},{\"to\":\"b\"}]"
    );
}

#[test]
fn empty_message_list_is_the_empty_error_and_writes_nothing() {
    let mut buffer = b"prefix".to_vec();
    let r = serialize_into_json_list(&[], &mut buffer);
    assert_eq!(r, Err(ExpoNotificationError::Empty));
    assert_eq!(buffer, b"prefix".to_vec());
}

#[test]
fn ids_render_as_a_wrapped_array() {
    let ids = vec![
        PushReceiptId::from_string("r1"),
        PushReceiptId::from_string("r2"),
    ];
    let mut buffer = Vec::new();
    serialize_ids_into_json_list(&ids, &mut buffer).unwrap();
    assert_eq!(
        String::from_utf8(buffer).unwrap(),
        "{\"ids\":[\"r1\",\"r2\"]}"
    );
}

#[test]
fn empty_id_list_is_the_empty_error_and_writes_nothing() {
    let mut buffer = Vec::new();
    let r = serialize_ids_into_json_list(&[], &mut buffer);
    assert_eq!(r, Err(ExpoNotificationError::Empty));
    assert!(buffer.is_empty());
}

#[test]
fn single_chunk_primitives_fail_on_empty_input() {
    let r = build_push_chunk_request(&GzipPolicy::Never, &[]);
    assert!(matches!(r, Err(ExpoNotificationError::Empty)));
    let r = build_receipt_chunk_request(&GzipPolicy::Never, &[]);
    assert!(matches!(r, Err(ExpoNotificationError::Empty)));
}

#[test]
fn serialized_message_reparses_as_the_same_structure() {
    let msg = PushMessage::new(token("ExpoPushToken[xyz]"))
        .title("Ti\"tle")
        .ttl(12);
    let mut buffer = Vec::new();
    serialize_into_json_list(&[msg], &mut buffer).unwrap();
    let value: serde_json::Value = serde_json::from_slice(&buffer).unwrap();
    let arr = value.as_array().unwrap();
    assert_eq!(arr.len(), 1);
    let obj = arr[0].as_object().unwrap();
    assert_eq!(obj.get("to").unwrap().as_str().unwrap(), "ExpoPushToken[xyz]");
    assert_eq!(obj.get("title").unwrap().as_str().unwrap(), "Ti\"tle");
    assert_eq!(obj.get("ttl").unwrap().as_u64().unwrap(), 12);
    assert_eq!(obj.len(), 3);
}
