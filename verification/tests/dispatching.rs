//! The chunking dispatchers, driven with synthetic gateway responses.

use expo_server_sdk::dispatch::{PushDispatcher, ReceiptDispatcher};
use expo_server_sdk::errors::ExpoNotificationError;
use expo_server_sdk::message::{PushMessage, PushToken};
use expo_server_sdk::policy::GzipPolicy;
use expo_server_sdk::response::{PushReceipt, PushReceiptId, PushTicket};

fn message(n: usize) -> PushMessage {
    let token = PushToken::from_string(format!("ExpoPushToken[{}]", n)).unwrap();
    PushMessage::new(token)
}

/// A response body with one ok ticket per message of the chunk, ids
/// numbered from `start`.
fn ticket_response(start: usize, count: usize) -> Vec<u8> {
    let mut body = String::from("{\"data\":[");
    for k in 0..count {
        if k > 0 {
            body.push(',');
        }
        body.push_str(&format!("{{\"status\":\"ok\",\"id\":\"t{}\"}}", start + k));
    }
    body.push_str("]}");
    body.into_bytes()
}

#[test]
fn an_empty_input_is_done_without_any_request() {
    let dispatch = PushDispatcher::new(Vec::new(), 100);
    assert!(dispatch.is_done());
    assert_eq!(dispatch.requests_issued(), 0);
    let tickets = dispatch.finish();
    assert!(tickets.is_empty());
}

#[test]
fn one_message_costs_one_request_and_returns_one_ticket() {
    let mut dispatch = PushDispatcher::new(vec![message(0)], 100);
    assert!(!dispatch.is_done());
    let prepared = dispatch.next_request(&GzipPolicy::Never).unwrap();
    assert_eq!(prepared.body, b"[{\"to\":\"ExpoPushToken[0]\"}]".to_vec());
    dispatch.apply_response(&ticket_response(0, 1)).unwrap();
    assert!(dispatch.is_done());
    assert_eq!(dispatch.requests_issued(), 1);
    assert_eq!(dispatch.finish().len(), 1);
}

#[test]
fn two_hundred_fifty_messages_make_three_chunks_of_100_100_50() {
    let messages: Vec<PushMessage> = (0..250).map(message).collect();
    let mut dispatch = PushDispatcher::new(messages, 100);
    let mut sizes = Vec::new();
    let mut sent = 0;
    while !dispatch.is_done() {
        let prepared = dispatch.next_request(&GzipPolicy::Never).unwrap();
        // each message renders as one object: count them
        let body = String::from_utf8(prepared.body).unwrap();
        let count = body.matches("{\"to\":").count();
        sizes.push(count);
        let added = dispatch.apply_response(&ticket_response(sent, count)).unwrap();
        assert_eq!(added, count);
        sent += count;
    }
    assert_eq!(sizes, vec![100, 100, 50]);
    assert_eq!(dispatch.requests_issued(), 3);
    let tickets = dispatch.finish();
    assert_eq!(tickets.len(), 250);
    for (k, ticket) in tickets.iter().enumerate() {
        match ticket {
            PushTicket::Success { id } => {
                assert_eq!(*id, PushReceiptId::from_string(&format!("t{}", k)));
            },
            other => panic!("expected a success ticket, got {:?}", other),
        }
    }
}

#[test]
fn a_bad_chunk_aborts_the_call_with_no_partial_result() {
    let messages: Vec<PushMessage> = (0..150).map(message).collect();
    let mut dispatch = PushDispatcher::new(messages, 100);
    dispatch.next_request(&GzipPolicy::Never).unwrap();
    dispatch.apply_response(&ticket_response(0, 100)).unwrap();
    // the second chunk's response is garbage: the call errors out and the
    // dispatch never reaches the state in which tickets are handed out
    let r = dispatch.apply_response(b"not json at all");
    assert_eq!(r, Err(ExpoNotificationError::Decoding));
    assert!(!dispatch.is_done());
}

#[test]
fn gzipped_requests_carry_the_flag() {
    let mut dispatch = PushDispatcher::new(vec![message(0)], 100);
    let prepared = dispatch.next_request(&GzipPolicy::Always).unwrap();
    assert!(prepared.gzipped);
    dispatch.apply_response(&ticket_response(0, 1)).unwrap();
    assert!(dispatch.is_done());
}

#[test]
fn receipt_lookup_merges_chunks_and_keeps_omissions_absent() {
    let ids = vec![
        PushReceiptId::from_string("a"),
        PushReceiptId::from_string("b"),
        PushReceiptId::from_string("c"),
        PushReceiptId::from_string("d"),
    ];
    let mut dispatch = ReceiptDispatcher::new(ids, 2);
    // first chunk asks for a,b; the gateway only knows a
    let prepared = dispatch.next_request(&GzipPolicy::Never).unwrap();
    assert_eq!(prepared.body, b"{\"ids\":[\"a\",\"b\"]}".to_vec());
    dispatch
        .apply_response(b"{\"data\":{\"a\":{\"status\":\"error\",\"message\":\"late\"}}}")
        .unwrap();
    // second chunk asks for c,d; the gateway knows d, and answers a again
    let prepared = dispatch.next_request(&GzipPolicy::Never).unwrap();
    assert_eq!(prepared.body, b"{\"ids\":[\"c\",\"d\"]}".to_vec());
    dispatch
        .apply_response(b"{\"data\":{\"d\":{\"status\":\"ok\"},\"a\":{\"status\":\"ok\"}}}")
        .unwrap();
    assert!(dispatch.is_done());
    assert_eq!(dispatch.requests_issued(), 2);
    let map = dispatch.finish();
    // every id the gateway returned data for is present; the later answer
    // for the duplicate id won
    assert!(matches!(
        map.get(&PushReceiptId::from_string("a")),
        Some(PushReceipt::Success)
    ));
    assert!(matches!(
        map.get(&PushReceiptId::from_string("d")),
        Some(PushReceipt::Success)
    ));
    // omitted ids are simply absent, and their omission raised no error
    assert!(map.get(&PushReceiptId::from_string("b")).is_none());
    assert!(map.get(&PushReceiptId::from_string("c")).is_none());
}

#[test]
fn an_empty_id_list_is_done_without_any_request() {
    let dispatch = ReceiptDispatcher::new(Vec::new(), 300);
    assert!(dispatch.is_done());
    assert_eq!(dispatch.requests_issued(), 0);
    let map = dispatch.finish();
    assert_eq!(map.len(), 0);
    assert!(map.into_entries().is_empty());
}

#[test]
fn a_non_2xx_status_maps_to_a_transport_error_mid_call() {
    // the transport sees a 429 on the second chunk; converting the status
    // fails the call before any response body is folded in
    let messages: Vec<PushMessage> = (0..150).map(message).collect();
    let mut dispatch = PushDispatcher::new(messages, 100);
    dispatch.next_request(&GzipPolicy::Never).unwrap();
    dispatch.apply_response(&ticket_response(0, 100)).unwrap();
    dispatch.next_request(&GzipPolicy::Never).unwrap();
    let status = expo_server_sdk::transport::check_status(429);
    assert_eq!(status, Err(ExpoNotificationError::Transport(Some(429))));
    assert!(!dispatch.is_done());
}

#[test]
fn the_single_message_call_hands_out_the_one_ticket() {
    let tickets = expo_server_sdk::envelope::parse_push_response(
        b"{\"data\":[{\"status\":\"ok\",\"id\":\"only\"}]}",
    )
    .unwrap();
    let ticket = expo_server_sdk::dispatch::single_ticket(tickets).unwrap();
    assert!(matches!(
        ticket,
        PushTicket::Success { ref id } if *id == PushReceiptId::from_string("only")
    ));
    assert_eq!(
        expo_server_sdk::dispatch::single_ticket(Vec::new()),
        Err(ExpoNotificationError::Decoding)
    );
}

#[test]
fn the_single_id_call_hands_out_the_sole_receipt() {
    let mut dispatch = ReceiptDispatcher::new(vec![PushReceiptId::from_string("a")], 1);
    dispatch.next_request(&GzipPolicy::Never).unwrap();
    dispatch
        .apply_response(b"{\"data\":{\"a\":{\"status\":\"ok\"}}}")
        .unwrap();
    let receipt = expo_server_sdk::dispatch::sole_receipt(dispatch.finish());
    assert!(matches!(receipt, Some(PushReceipt::Success)));

    let mut dispatch = ReceiptDispatcher::new(vec![PushReceiptId::from_string("a")], 1);
    dispatch.next_request(&GzipPolicy::Never).unwrap();
    dispatch.apply_response(b"{\"data\":{}}").unwrap();
    assert!(expo_server_sdk::dispatch::sole_receipt(dispatch.finish()).is_none());
}
