//! Decoding of the gateway's response envelopes, including the bodies that
//! must be refused.

use expo_server_sdk::envelope::{parse_push_response, parse_receipt_response};
use expo_server_sdk::errors::ExpoNotificationError;
use expo_server_sdk::response::{PushReceipt, PushReceiptId, PushTicket};

#[test]
fn a_ticket_list_decodes_in_order() {
    let body = b"{\"data\":[{\"status\":\"ok\",\"id\":\"r1\"},{\"status\":\"error\",\"message\":\"oops\",\"details\":{\"error\":\"DeviceNotRegistered\"}}]}";
    let tickets = parse_push_response(body).unwrap();
    assert_eq!(tickets.len(), 2);
    match &tickets[0] {
        PushTicket::Success { id } => assert_eq!(*id, PushReceiptId::from_string("r1")),
        other => panic!("expected a success ticket, got {:?}", other),
    }
    match &tickets[1] {
        PushTicket::Failure { message } => assert_eq!(message, &b"oops".to_vec()),
        other => panic!("expected a failure ticket, got {:?}", other),
    }
}

#[test]
fn an_error_ticket_without_message_carries_empty_text() {
    let body = b"{\"data\":[{\"status\":\"error\"}]}";
    let tickets = parse_push_response(body).unwrap();
    assert_eq!(tickets.len(), 1);
    assert!(matches!(&tickets[0], PushTicket::Failure { message } if message.is_empty()));
}

#[test]
fn whitespace_and_extra_fields_are_tolerated() {
    let body = b" {\n \"extra\": 1.5e3, \"data\": [ {\"status\": \"ok\", \"id\": \"a\"} ] , \"more\": [null, true, false, -2] }\n";
    let tickets = parse_push_response(body).unwrap();
    assert_eq!(tickets.len(), 1);
}

#[test]
fn escaped_text_is_unescaped() {
    let body = b"{\"data\":[{\"status\":\"ok\",\"id\":\"a\\\"b\\u0041\\n\"}]}";
    let tickets = parse_push_response(body).unwrap();
    match &tickets[0] {
        PushTicket::Success { id } => assert_eq!(id.bytes(), &b"a\"bA\n".to_vec()),
        other => panic!("expected a success ticket, got {:?}", other),
    }
}

#[test]
fn missing_data_field_is_a_decoding_error() {
    assert_eq!(
        parse_push_response(b"{\"errors\":[]}"),
        Err(ExpoNotificationError::Decoding)
    );
    assert_eq!(parse_push_response(b"{}"), Err(ExpoNotificationError::Decoding));
    assert_eq!(
        parse_receipt_response(b"{\"nope\":{}}"),
        Err(ExpoNotificationError::Decoding)
    );
}

#[test]
fn data_of_the_wrong_shape_is_a_decoding_error() {
    // an object where the ticket list was expected
    assert_eq!(
        parse_push_response(b"{\"data\":{\"a\":{\"status\":\"ok\"}}}"),
        Err(ExpoNotificationError::Decoding)
    );
    // an array where the receipt object was expected
    assert_eq!(
        parse_receipt_response(b"{\"data\":[{\"status\":\"ok\",\"id\":\"x\"}]}"),
        Err(ExpoNotificationError::Decoding)
    );
    // a ticket element that is no object
    assert_eq!(
        parse_push_response(b"{\"data\":[42]}"),
        Err(ExpoNotificationError::Decoding)
    );
    // an unknown status value
    assert_eq!(
        parse_push_response(b"{\"data\":[{\"status\":\"maybe\"}]}"),
        Err(ExpoNotificationError::Decoding)
    );
    // a success ticket without an id
    assert_eq!(
        parse_push_response(b"{\"data\":[{\"status\":\"ok\"}]}"),
        Err(ExpoNotificationError::Decoding)
    );
}

#[test]
fn malformed_bodies_are_decoding_errors() {
    assert_eq!(parse_push_response(b""), Err(ExpoNotificationError::Decoding));
    assert_eq!(parse_push_response(b"   "), Err(ExpoNotificationError::Decoding));
    assert_eq!(parse_push_response(b"not json"), Err(ExpoNotificationError::Decoding));
    assert_eq!(
        parse_push_response(b"{\"data\":[]} trailing"),
        Err(ExpoNotificationError::Decoding)
    );
    assert_eq!(
        parse_push_response(b"{\"data\":[{\"status\":\"ok\",\"id\":\"x\"}]"),
        Err(ExpoNotificationError::Decoding)
    );
}

#[test]
fn an_empty_data_array_decodes_to_no_tickets() {
    let tickets = parse_push_response(b"{\"data\":[]}").unwrap();
    assert!(tickets.is_empty());
}

#[test]
fn a_receipt_object_decodes_with_both_outcomes() {
    let body = b"{\"data\":{\"id1\":{\"status\":\"ok\"},\"id2\":{\"status\":\"error\",\"message\":\"no\"}}}";
    let entries = parse_receipt_response(body).unwrap();
    assert_eq!(entries.len(), 2);
    assert_eq!(entries[0].0, PushReceiptId::from_string("id1"));
    assert!(matches!(entries[0].1, PushReceipt::Success));
    assert_eq!(entries[1].0, PushReceiptId::from_string("id2"));
    assert!(matches!(&entries[1].1, PushReceipt::Failure { message } if message == &b"no".to_vec()));
}

#[test]
fn an_empty_receipt_object_decodes_to_no_entries() {
    let entries = parse_receipt_response(b"{\"data\":{}}").unwrap();
    assert!(entries.is_empty());
}

#[test]
fn unknown_escapes_are_refused() {
    // an escape that is not part of the accepted grammar
    assert_eq!(
        parse_push_response(b"{\"data\":[{\"status\":\"ok\",\"id\":\"a\\q\"}]}"),
        Err(ExpoNotificationError::Decoding)
    );
    // a unicode escape above the ASCII range is refused, not mangled
    assert_eq!(
        parse_push_response(b"{\"data\":[{\"status\":\"ok\",\"id\":\"\\u0100\"}]}"),
        Err(ExpoNotificationError::Decoding)
    );
}

#[test]
fn raw_utf8_text_passes_through() {
    let body = "{\"data\":[{\"status\":\"error\",\"message\":\"g\u{00e5}r inte\"}]}".as_bytes();
    let tickets = parse_push_response(body).unwrap();
    match &tickets[0] {
        PushTicket::Failure { message } => {
            assert_eq!(String::from_utf8(message.clone()).unwrap(), "g\u{00e5}r inte");
        },
        other => panic!("expected a failure ticket, got {:?}", other),
    }
}

#[test]
fn the_first_of_duplicate_fields_wins() {
    let body = b"{\"data\":[{\"status\":\"ok\",\"status\":\"error\",\"id\":\"x\"}]}";
    let tickets = parse_push_response(body).unwrap();
    assert!(matches!(&tickets[0], PushTicket::Success { .. }));
    let body = b"{\"data\":[],\"data\":{\"a\":{\"status\":\"ok\"}}}";
    assert!(parse_push_response(body).unwrap().is_empty());
}
