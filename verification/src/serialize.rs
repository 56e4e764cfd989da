//! Streaming serialization of whole request bodies: a JSON array of rendered
//! messages for submission, and a wrapped array of receipt-id strings for
//! receipt lookup. Each body is written into one byte buffer without
//! materializing the individually rendered items.

use vstd::prelude::*;
use crate::errors::ExpoNotificationError;
use crate::json::{join_comma, json_list, json_string, lemma_join_take_succ};
use crate::message::{message_json, write_message_json, MessageModel, PushMessage};
use crate::response::PushReceiptId;

verus! {

/// The models of a sequence of messages.
pub open spec fn message_models(msgs: Seq<PushMessage>) -> Seq<MessageModel> {
    msgs.map(|i: int, m: PushMessage| m@)
}

/// The models of a sequence of receipt ids.
pub open spec fn id_models(ids: Seq<PushReceiptId>) -> Seq<Seq<u8>> {
    ids.map(|i: int, id: PushReceiptId| id@)
}

/// The body of a submission request: a JSON array of rendered messages.
pub open spec fn push_list_body(msgs: Seq<MessageModel>) -> Seq<u8> {
    json_list(msgs.map(|i: int, m: MessageModel| message_json(m)))
}

/// The body of a receipt-lookup request: a JSON object with the single field
/// `ids` holding a JSON array of the id strings.
pub open spec fn receipt_list_body(ids: Seq<Seq<u8>>) -> Seq<u8> {
    seq![123u8] + json_string(seq![105u8, 100u8, 115u8]) + seq![58u8] + json_list(
        ids.map(|i: int, id: Seq<u8>| json_string(id)),
    ) + seq![125u8]
}

/// Appends the JSON array of the given messages to `buffer`.
///
/// An empty sequence is an `Empty` error, reported before any byte is
/// written; the submission wire payload is degenerate without items.
pub fn serialize_into_json_list(messages: &[PushMessage], buffer: &mut Vec<u8>) -> (r: Result<
    (),
    ExpoNotificationError,
>)
    ensures
        messages@.len() == 0 ==> r == Err::<(), ExpoNotificationError>(
            ExpoNotificationError::Empty,
        ) && final(buffer)@ == old(buffer)@,
        messages@.len() > 0 ==> r == Ok::<(), ExpoNotificationError>(()) && final(buffer)@ == old(
            buffer,
        )@ + push_list_body(message_models(messages@)),
{
    if messages.len() == 0 {
        return Err(ExpoNotificationError::Empty);
    }
    let ghost items = message_models(messages@).map(|i: int, m: MessageModel| message_json(m));
    buffer.push(91);
    let mut i: usize = 0;
    while i < messages.len()
        invariant
            i <= messages@.len(),
            items == message_models(messages@).map(|k: int, m: MessageModel| message_json(m)),
            items.len() == messages@.len(),
            buffer@ == old(buffer)@ + seq![91u8] + join_comma(items.take(i as int)),
        decreases messages@.len() - i,
    {
        if i > 0 {
            buffer.push(44);
        }
        write_message_json(buffer, &messages[i]);
        proof {
            lemma_join_take_succ(items, i as int);
            assert(items[i as int] == message_json(messages@[i as int]@));
            assert(buffer@ =~= old(buffer)@ + seq![91u8] + join_comma(items.take(i + 1)));
        }
        i += 1;
    }
    buffer.push(93);
    proof {
        assert(items.take(items.len() as int) =~= items);
        assert(buffer@ =~= old(buffer)@ + push_list_body(message_models(messages@)));
    }
    Ok(())
}

/// Appends the receipt-lookup body `{"ids":[...]}` for the given ids to
/// `buffer`.
///
/// An empty sequence is an `Empty` error, reported before any byte is
/// written.
pub fn serialize_ids_into_json_list(ids: &[PushReceiptId], buffer: &mut Vec<u8>) -> (r: Result<
    (),
    ExpoNotificationError,
>)
    ensures
        ids@.len() == 0 ==> r == Err::<(), ExpoNotificationError>(ExpoNotificationError::Empty)
            && final(buffer)@ == old(buffer)@,
        ids@.len() > 0 ==> r == Ok::<(), ExpoNotificationError>(()) && final(buffer)@ == old(
            buffer,
        )@ + receipt_list_body(id_models(ids@)),
{
    if ids.len() == 0 {
        return Err(ExpoNotificationError::Empty);
    }
    let ghost items = id_models(ids@).map(|i: int, id: Seq<u8>| json_string(id));
    buffer.push(123);
    let key: Vec<u8> = vec![105u8, 100u8, 115u8];
    crate::json::write_object_key(buffer, key.as_slice());
    buffer.push(91);
    let mut i: usize = 0;
    while i < ids.len()
        invariant
            i <= ids@.len(),
            items == id_models(ids@).map(|k: int, id: Seq<u8>| json_string(id)),
            items.len() == ids@.len(),
            buffer@ == old(buffer)@ + seq![123u8] + json_string(seq![105u8, 100u8, 115u8])
                + seq![58u8] + seq![91u8] + join_comma(items.take(i as int)),
        decreases ids@.len() - i,
    {
        if i > 0 {
            buffer.push(44);
        }
        crate::json::write_json_string(buffer, ids[i].bytes().as_slice());
        proof {
            lemma_join_take_succ(items, i as int);
            assert(items[i as int] == json_string(ids@[i as int]@));
            assert(buffer@ =~= old(buffer)@ + seq![123u8] + json_string(seq![105u8, 100u8, 115u8])
                + seq![58u8] + seq![91u8] + join_comma(items.take(i + 1)));
        }
        i += 1;
    }
    buffer.push(93);
    buffer.push(125);
    proof {
        assert(items.take(items.len() as int) =~= items);
        assert(buffer@ =~= old(buffer)@ + receipt_list_body(id_models(ids@)));
    }
    Ok(())
}

} // verus!
