//! Decoding of the gateway's response envelopes. Both endpoints answer with
//! a top-level JSON object holding a `data` field: an array of tickets for
//! submission, an id-to-receipt object for receipt lookup. A body that does
//! not match the expected shape is a decoding error, never an empty or
//! default result.

use vstd::prelude::*;
use vstd::slice::slice_to_vec;
use crate::errors::ExpoNotificationError;
use crate::json_parse::{
    jv_model, lemma_arr_models_are_vals, lemma_obj_models_are_pairs, lemma_pairs_models_push,
    lemma_vals_models_push, pairs_models, parse_json, sp_json, vals_models, JsonModel, JsonValue,
};
use crate::receipts::entry_models;
use crate::response::{bytes_eq, PushReceipt, PushReceiptId, PushTicket, ReceiptModel, TicketModel};

verus! {

/// The UTF-8 spelling of the envelope field `data`.
pub open spec fn key_data() -> Seq<u8> {
    seq![100u8, 97u8, 116u8, 97u8]
}

/// The UTF-8 spelling of the record field `status`.
pub open spec fn key_status() -> Seq<u8> {
    seq![115u8, 116u8, 97u8, 116u8, 117u8, 115u8]
}

/// The UTF-8 spelling of the record field `id`.
pub open spec fn key_id() -> Seq<u8> {
    seq![105u8, 100u8]
}

/// The UTF-8 spelling of the record field `message`.
pub open spec fn key_message() -> Seq<u8> {
    seq![109u8, 101u8, 115u8, 115u8, 97u8, 103u8, 101u8]
}

/// The UTF-8 spelling of the status value `ok`.
pub open spec fn status_ok() -> Seq<u8> {
    seq![111u8, 107u8]
}

/// The UTF-8 spelling of the status value `error`.
pub open spec fn status_error() -> Seq<u8> {
    seq![101u8, 114u8, 114u8, 111u8, 114u8]
}

/// The value of the first field with the given name, if any.
pub open spec fn obj_lookup(fields: Seq<(Vec<u8>, JsonValue)>, key: Seq<u8>) -> Option<JsonValue>
    decreases fields.len(),
{
    if fields.len() == 0 {
        None
    } else if fields[0].0@ == key {
        Some(fields[0].1)
    } else {
        obj_lookup(fields.skip(1), key)
    }
}

/// The failure text of an error record: its `message` string, or empty when
/// the record carries none.
pub open spec fn spec_message_of(fields: Seq<(Vec<u8>, JsonValue)>) -> Seq<u8> {
    match obj_lookup(fields, key_message()) {
        Some(JsonValue::Str(m)) => m@,
        _ => Seq::empty(),
    }
}

/// The ticket a JSON record denotes: status `ok` with a string id is a
/// success, status `error` is a failure carrying the record's message;
/// anything else is not a ticket.
pub open spec fn spec_ticket_of(v: JsonValue) -> Option<TicketModel> {
    match v {
        JsonValue::Obj(fields) => match obj_lookup(fields@, key_status()) {
            Some(JsonValue::Str(st)) => if st@ == status_ok() {
                match obj_lookup(fields@, key_id()) {
                    Some(JsonValue::Str(id)) => Some(TicketModel::Success { id: id@ }),
                    _ => None,
                }
            } else if st@ == status_error() {
                Some(TicketModel::Failure { message: spec_message_of(fields@) })
            } else {
                None
            },
            _ => None,
        },
        _ => None,
    }
}

/// The receipt a JSON record denotes, by the same status convention.
pub open spec fn spec_receipt_of(v: JsonValue) -> Option<ReceiptModel> {
    match v {
        JsonValue::Obj(fields) => match obj_lookup(fields@, key_status()) {
            Some(JsonValue::Str(st)) => if st@ == status_ok() {
                Some(ReceiptModel::Success)
            } else if st@ == status_error() {
                Some(ReceiptModel::Failure { message: spec_message_of(fields@) })
            } else {
                None
            },
            _ => None,
        },
        _ => None,
    }
}

/// The `data` field of an envelope, if the document is an object holding
/// one.
pub open spec fn envelope_data(v: JsonValue) -> Option<JsonValue> {
    match v {
        JsonValue::Obj(fields) => obj_lookup(fields@, key_data()),
        _ => None,
    }
}

/// The tickets a `data` array denotes; any element that is not a ticket
/// spoils the whole list.
pub open spec fn tickets_of_list(items: Seq<JsonValue>) -> Option<Seq<TicketModel>>
    decreases items.len(),
{
    if items.len() == 0 {
        Some(Seq::empty())
    } else {
        match (tickets_of_list(items.drop_last()), spec_ticket_of(items.last())) {
            (Some(rest), Some(t)) => Some(rest.push(t)),
            _ => None,
        }
    }
}

/// The id/receipt pairs a `data` object denotes, in field order; any field
/// whose value is not a receipt spoils the whole mapping.
pub open spec fn receipts_of_fields(fields: Seq<(Vec<u8>, JsonValue)>) -> Option<
    Seq<(Seq<u8>, ReceiptModel)>,
>
    decreases fields.len(),
{
    if fields.len() == 0 {
        Some(Seq::empty())
    } else {
        match (receipts_of_fields(fields.drop_last()), spec_receipt_of(fields.last().1)) {
            (Some(rest), Some(rc)) => Some(rest.push((fields.last().0@, rc))),
            _ => None,
        }
    }
}

/// What a submission envelope decodes to.
pub open spec fn spec_tickets_of(v: JsonValue) -> Option<Seq<TicketModel>> {
    match envelope_data(v) {
        Some(JsonValue::Arr(items)) => tickets_of_list(items@),
        _ => None,
    }
}

/// What a receipt-lookup envelope decodes to.
pub open spec fn spec_receipts_of(v: JsonValue) -> Option<Seq<(Seq<u8>, ReceiptModel)>> {
    match envelope_data(v) {
        Some(JsonValue::Obj(fields)) => receipts_of_fields(fields@),
        _ => None,
    }
}

/// The value of the first field with the given name, at the model level.
pub open spec fn obj_lookup_m(fields: Seq<(Seq<u8>, JsonModel)>, key: Seq<u8>) -> Option<JsonModel>
    decreases fields.len(),
{
    if fields.len() == 0 {
        None
    } else if fields[0].0 == key {
        Some(fields[0].1)
    } else {
        obj_lookup_m(fields.skip(1), key)
    }
}

/// The failure text of an error record, at the model level.
pub open spec fn spec_message_of_m(fields: Seq<(Seq<u8>, JsonModel)>) -> Seq<u8> {
    match obj_lookup_m(fields, key_message()) {
        Some(JsonModel::Str(m)) => m,
        _ => Seq::empty(),
    }
}

/// The ticket a parsed record denotes, at the model level.
pub open spec fn spec_ticket_of_m(m: JsonModel) -> Option<TicketModel> {
    match m {
        JsonModel::Obj(fields) => match obj_lookup_m(fields, key_status()) {
            Some(JsonModel::Str(st)) => if st == status_ok() {
                match obj_lookup_m(fields, key_id()) {
                    Some(JsonModel::Str(id)) => Some(TicketModel::Success { id }),
                    _ => None,
                }
            } else if st == status_error() {
                Some(TicketModel::Failure { message: spec_message_of_m(fields) })
            } else {
                None
            },
            _ => None,
        },
        _ => None,
    }
}

/// The receipt a parsed record denotes, at the model level.
pub open spec fn spec_receipt_of_m(m: JsonModel) -> Option<ReceiptModel> {
    match m {
        JsonModel::Obj(fields) => match obj_lookup_m(fields, key_status()) {
            Some(JsonModel::Str(st)) => if st == status_ok() {
                Some(ReceiptModel::Success)
            } else if st == status_error() {
                Some(ReceiptModel::Failure { message: spec_message_of_m(fields) })
            } else {
                None
            },
            _ => None,
        },
        _ => None,
    }
}

/// The `data` field of a parsed envelope, at the model level.
pub open spec fn envelope_data_m(m: JsonModel) -> Option<JsonModel> {
    match m {
        JsonModel::Obj(fields) => obj_lookup_m(fields, key_data()),
        _ => None,
    }
}

/// The tickets a parsed `data` array denotes, at the model level.
pub open spec fn tickets_of_list_m(items: Seq<JsonModel>) -> Option<Seq<TicketModel>>
    decreases items.len(),
{
    if items.len() == 0 {
        Some(Seq::empty())
    } else {
        match (tickets_of_list_m(items.drop_last()), spec_ticket_of_m(items.last())) {
            (Some(rest), Some(t)) => Some(rest.push(t)),
            _ => None,
        }
    }
}

/// The id/receipt pairs a parsed `data` object denotes, at the model level.
pub open spec fn receipts_of_fields_m(fields: Seq<(Seq<u8>, JsonModel)>) -> Option<
    Seq<(Seq<u8>, ReceiptModel)>,
>
    decreases fields.len(),
{
    if fields.len() == 0 {
        Some(Seq::empty())
    } else {
        match (receipts_of_fields_m(fields.drop_last()), spec_receipt_of_m(fields.last().1)) {
            (Some(rest), Some(rc)) => Some(rest.push((fields.last().0, rc))),
            _ => None,
        }
    }
}

/// What a parsed submission envelope decodes to.
pub open spec fn spec_tickets_of_m(m: JsonModel) -> Option<Seq<TicketModel>> {
    match envelope_data_m(m) {
        Some(JsonModel::Arr(items)) => tickets_of_list_m(items),
        _ => None,
    }
}

/// What a parsed receipt-lookup envelope decodes to.
pub open spec fn spec_receipts_of_m(m: JsonModel) -> Option<Seq<(Seq<u8>, ReceiptModel)>> {
    match envelope_data_m(m) {
        Some(JsonModel::Obj(fields)) => receipts_of_fields_m(fields),
        _ => None,
    }
}

proof fn lemma_pairs_reindex(fs: Seq<(Vec<u8>, JsonValue)>, k: int)
    requires
        1 <= k <= fs.len(),
    ensures
        pairs_models(fs, k) == pairs_models(fs.skip(1), k - 1),
    decreases fs.len() - k,
{
    if k < fs.len() {
        lemma_pairs_reindex(fs, k + 1);
        assert(fs.skip(1)[k - 1] == fs[k]);
    }
}

/// Field lookup depends only on the model of the fields.
proof fn lemma_lookup_bridge(fs: Seq<(Vec<u8>, JsonValue)>, key: Seq<u8>)
    ensures
        match obj_lookup(fs, key) {
            Some(v) => obj_lookup_m(pairs_models(fs, 0), key) == Some(jv_model(v)),
            None => obj_lookup_m(pairs_models(fs, 0), key) is None,
        },
    decreases fs.len(),
{
    if fs.len() == 0 {
    } else {
        assert(pairs_models(fs, 0) == seq![(fs[0].0@, jv_model(fs[0].1))] + pairs_models(fs, 1));
        assert(pairs_models(fs, 0)[0] == (fs[0].0@, jv_model(fs[0].1)));
        if fs[0].0@ == key {
        } else {
            lemma_lookup_bridge(fs.skip(1), key);
            if 1 <= fs.len() {
                lemma_pairs_reindex(fs, 1);
            }
            assert(pairs_models(fs, 0).skip(1) =~= pairs_models(fs, 1));
        }
    }
}

/// A record's ticket depends only on its model.
proof fn lemma_ticket_bridge(v: JsonValue)
    ensures
        spec_ticket_of_m(jv_model(v)) == spec_ticket_of(v),
{
    match v {
        JsonValue::Obj(fields) => {
            lemma_obj_models_are_pairs(fields, 0);
            lemma_lookup_bridge(fields@, key_status());
            lemma_lookup_bridge(fields@, key_id());
            lemma_lookup_bridge(fields@, key_message());
        },
        _ => {},
    }
}

/// A record's receipt depends only on its model.
proof fn lemma_receipt_bridge(v: JsonValue)
    ensures
        spec_receipt_of_m(jv_model(v)) == spec_receipt_of(v),
{
    match v {
        JsonValue::Obj(fields) => {
            lemma_obj_models_are_pairs(fields, 0);
            lemma_lookup_bridge(fields@, key_status());
            lemma_lookup_bridge(fields@, key_message());
        },
        _ => {},
    }
}

/// A ticket list depends only on the models of its records.
proof fn lemma_tickets_list_bridge(items: Seq<JsonValue>)
    ensures
        tickets_of_list_m(vals_models(items, 0)) == tickets_of_list(items),
    decreases items.len(),
{
    if items.len() == 0 {
        assert(vals_models(items, 0) =~= Seq::<JsonModel>::empty());
    } else {
        lemma_tickets_list_bridge(items.drop_last());
        lemma_ticket_bridge(items.last());
        assert(items.drop_last().push(items.last()) =~= items);
        lemma_vals_models_push(items.drop_last(), items.last(), 0);
        assert(vals_models(items, 0) == vals_models(items.drop_last(), 0).push(
            jv_model(items.last()),
        ));
        assert(vals_models(items, 0).drop_last() =~= vals_models(items.drop_last(), 0));
        assert(vals_models(items, 0).last() == jv_model(items.last()));
    }
}

/// A receipt mapping depends only on the models of its fields.
proof fn lemma_receipts_fields_bridge(fields: Seq<(Vec<u8>, JsonValue)>)
    ensures
        receipts_of_fields_m(pairs_models(fields, 0)) == receipts_of_fields(fields),
    decreases fields.len(),
{
    if fields.len() == 0 {
        assert(pairs_models(fields, 0) =~= Seq::<(Seq<u8>, JsonModel)>::empty());
    } else {
        lemma_receipts_fields_bridge(fields.drop_last());
        lemma_receipt_bridge(fields.last().1);
        assert(fields.drop_last().push(fields.last()) =~= fields);
        lemma_pairs_models_push(fields.drop_last(), fields.last(), 0);
        assert(pairs_models(fields, 0) == pairs_models(fields.drop_last(), 0).push(
            (fields.last().0@, jv_model(fields.last().1)),
        ));
        assert(pairs_models(fields, 0).drop_last() =~= pairs_models(fields.drop_last(), 0));
        assert(pairs_models(fields, 0).last() == (fields.last().0@, jv_model(fields.last().1)));
    }
}

/// A submission envelope's decoding depends only on the body's model.
proof fn lemma_tickets_bridge(v: JsonValue)
    ensures
        spec_tickets_of_m(jv_model(v)) == spec_tickets_of(v),
{
    match v {
        JsonValue::Obj(fields) => {
            lemma_obj_models_are_pairs(fields, 0);
            lemma_lookup_bridge(fields@, key_data());
            match obj_lookup(fields@, key_data()) {
                Some(d) => match d {
                    JsonValue::Arr(items) => {
                        lemma_arr_models_are_vals(items, 0);
                        lemma_tickets_list_bridge(items@);
                    },
                    JsonValue::Obj(inner) => {
                        lemma_obj_models_are_pairs(inner, 0);
                    },
                    _ => {},
                },
                None => {},
            }
        },
        _ => {},
    }
}

/// A receipt-lookup envelope's decoding depends only on the body's model.
proof fn lemma_receipts_bridge(v: JsonValue)
    ensures
        spec_receipts_of_m(jv_model(v)) == spec_receipts_of(v),
{
    match v {
        JsonValue::Obj(fields) => {
            lemma_obj_models_are_pairs(fields, 0);
            lemma_lookup_bridge(fields@, key_data());
            match obj_lookup(fields@, key_data()) {
                Some(d) => match d {
                    JsonValue::Obj(inner) => {
                        lemma_obj_models_are_pairs(inner, 0);
                        lemma_receipts_fields_bridge(inner@);
                    },
                    JsonValue::Arr(items) => {
                        lemma_arr_models_are_vals(items, 0);
                    },
                    _ => {},
                },
                None => {},
            }
        },
        _ => {},
    }
}

/// The models of a sequence of tickets.
pub open spec fn ticket_models(ts: Seq<PushTicket>) -> Seq<TicketModel> {
    ts.map(|i: int, t: PushTicket| t@)
}

/// One element that is not a ticket spoils the whole list.
proof fn lemma_tickets_none(items: Seq<JsonValue>, i: int)
    requires
        0 <= i < items.len(),
        spec_ticket_of(items[i]) is None,
    ensures
        tickets_of_list(items) is None,
    decreases items.len(),
{
    if i < items.len() - 1 {
        assert(items.drop_last()[i] == items[i]);
        lemma_tickets_none(items.drop_last(), i);
    }
}

/// One field that is not a receipt spoils the whole mapping.
proof fn lemma_receipts_none(fields: Seq<(Vec<u8>, JsonValue)>, i: int)
    requires
        0 <= i < fields.len(),
        spec_receipt_of(fields[i].1) is None,
    ensures
        receipts_of_fields(fields) is None,
    decreases fields.len(),
{
    if i < fields.len() - 1 {
        assert(fields.drop_last()[i] == fields[i]);
        lemma_receipts_none(fields.drop_last(), i);
    }
}

/// Finds the first field with the given name.
fn obj_get<'a>(fields: &'a Vec<(Vec<u8>, JsonValue)>, key: &Vec<u8>) -> (r: Option<&'a JsonValue>)
    ensures
        match r {
            Some(v) => obj_lookup(fields@, key@) == Some(*v),
            None => obj_lookup(fields@, key@) is None,
        },
{
    let mut i: usize = 0;
    proof {
        assert(fields@.skip(0) =~= fields@);
    }
    while i < fields.len()
        invariant
            i <= fields@.len(),
            obj_lookup(fields@, key@) == obj_lookup(fields@.skip(i as int), key@),
        decreases fields@.len() - i,
    {
        if bytes_eq(&fields[i].0, key) {
            proof {
                assert(fields@.skip(i as int)[0] == fields@[i as int]);
            }
            return Some(&fields[i].1);
        }
        proof {
            assert(fields@.skip(i as int)[0] == fields@[i as int]);
            assert(fields@.skip(i as int).skip(1) =~= fields@.skip(i as int + 1));
        }
        i += 1;
    }
    None
}

/// Extracts the failure text of an error record.
fn message_of(fields: &Vec<(Vec<u8>, JsonValue)>) -> (r: Vec<u8>)
    ensures
        r@ == spec_message_of(fields@),
{
    let msg_key: Vec<u8> = vec![109u8, 101u8, 115u8, 115u8, 97u8, 103u8, 101u8];
    match obj_get(fields, &msg_key) {
        Some(jv) => match jv {
            JsonValue::Str(m) => slice_to_vec(m.as_slice()),
            _ => Vec::new(),
        },
        None => Vec::new(),
    }
}

/// Decodes one element of a submission envelope's `data` array.
pub fn ticket_from_json(v: &JsonValue) -> (r: Result<PushTicket, ExpoNotificationError>)
    ensures
        match r {
            Ok(t) => spec_ticket_of(*v) == Some(t@),
            Err(e) => spec_ticket_of(*v) is None && e == ExpoNotificationError::Decoding,
        },
{
    match v {
        JsonValue::Obj(fields) => {
            let status_key: Vec<u8> = vec![115u8, 116u8, 97u8, 116u8, 117u8, 115u8];
            match obj_get(fields, &status_key) {
                Some(JsonValue::Str(st)) => {
                    let ok_text: Vec<u8> = vec![111u8, 107u8];
                    let error_text: Vec<u8> = vec![101u8, 114u8, 114u8, 111u8, 114u8];
                    if bytes_eq(st, &ok_text) {
                        let id_key: Vec<u8> = vec![105u8, 100u8];
                        match obj_get(fields, &id_key) {
                            Some(JsonValue::Str(id)) => Ok(
                                PushTicket::Success {
                                    id: PushReceiptId::from_bytes(slice_to_vec(id.as_slice())),
                                },
                            ),
                            _ => Err(ExpoNotificationError::Decoding),
                        }
                    } else if bytes_eq(st, &error_text) {
                        Ok(PushTicket::Failure { message: message_of(fields) })
                    } else {
                        Err(ExpoNotificationError::Decoding)
                    }
                },
                _ => Err(ExpoNotificationError::Decoding),
            }
        },
        _ => Err(ExpoNotificationError::Decoding),
    }
}

/// Decodes one field value of a receipt-lookup envelope's `data` object.
pub fn receipt_from_json(v: &JsonValue) -> (r: Result<PushReceipt, ExpoNotificationError>)
    ensures
        match r {
            Ok(rc) => spec_receipt_of(*v) == Some(rc@),
            Err(e) => spec_receipt_of(*v) is None && e == ExpoNotificationError::Decoding,
        },
{
    match v {
        JsonValue::Obj(fields) => {
            let status_key: Vec<u8> = vec![115u8, 116u8, 97u8, 116u8, 117u8, 115u8];
            match obj_get(fields, &status_key) {
                Some(JsonValue::Str(st)) => {
                    let ok_text: Vec<u8> = vec![111u8, 107u8];
                    let error_text: Vec<u8> = vec![101u8, 114u8, 114u8, 111u8, 114u8];
                    if bytes_eq(st, &ok_text) {
                        Ok(PushReceipt::Success)
                    } else if bytes_eq(st, &error_text) {
                        Ok(PushReceipt::Failure { message: message_of(fields) })
                    } else {
                        Err(ExpoNotificationError::Decoding)
                    }
                },
                _ => Err(ExpoNotificationError::Decoding),
            }
        },
        _ => Err(ExpoNotificationError::Decoding),
    }
}

/// Decodes a whole submission envelope.
pub fn decode_push_tickets(v: &JsonValue) -> (r: Result<Vec<PushTicket>, ExpoNotificationError>)
    ensures
        match r {
            Ok(ts) => spec_tickets_of(*v) == Some(ticket_models(ts@)),
            Err(e) => spec_tickets_of(*v) is None && e == ExpoNotificationError::Decoding,
        },
{
    let data_key: Vec<u8> = vec![100u8, 97u8, 116u8, 97u8];
    match v {
        JsonValue::Obj(fields) => match obj_get(fields, &data_key) {
            Some(JsonValue::Arr(items)) => {
                let mut out: Vec<PushTicket> = Vec::new();
                let mut i: usize = 0;
                while i < items.len()
                    invariant
                        i <= items@.len(),
                        out@.len() == i,
                        envelope_data(*v) == Some(JsonValue::Arr(*items)),
                        tickets_of_list(items@.take(i as int)) == Some(ticket_models(out@)),
                    decreases items@.len() - i,
                {
                    match ticket_from_json(&items[i]) {
                        Ok(t) => {
                            let ghost tm = t@;
                            let ghost prev = out@;
                            out.push(t);
                            proof {
                                assert(items@.take(i + 1).drop_last() =~= items@.take(i as int));
                                assert(items@.take(i + 1).last() == items@[i as int]);
                                assert(ticket_models(out@) =~= ticket_models(prev).push(tm));
                            }
                        },
                        Err(e) => {
                            proof {
                                lemma_tickets_none(items@, i as int);
                            }
                            return Err(e);
                        },
                    }
                    i += 1;
                }
                proof {
                    assert(items@.take(items@.len() as int) =~= items@);
                }
                Ok(out)
            },
            _ => Err(ExpoNotificationError::Decoding),
        },
        _ => Err(ExpoNotificationError::Decoding),
    }
}

/// Decodes a whole receipt-lookup envelope into id/receipt pairs, in the
/// order the gateway listed them.
pub fn decode_push_receipts(v: &JsonValue) -> (r: Result<
    Vec<(PushReceiptId, PushReceipt)>,
    ExpoNotificationError,
>)
    ensures
        match r {
            Ok(entries) => spec_receipts_of(*v) == Some(entry_models(entries@)),
            Err(e) => spec_receipts_of(*v) is None && e == ExpoNotificationError::Decoding,
        },
{
    let data_key: Vec<u8> = vec![100u8, 97u8, 116u8, 97u8];
    match v {
        JsonValue::Obj(fields) => match obj_get(fields, &data_key) {
            Some(JsonValue::Obj(data_fields)) => {
                let mut out: Vec<(PushReceiptId, PushReceipt)> = Vec::new();
                let mut i: usize = 0;
                while i < data_fields.len()
                    invariant
                        i <= data_fields@.len(),
                        out@.len() == i,
                        envelope_data(*v) == Some(JsonValue::Obj(*data_fields)),
                        receipts_of_fields(data_fields@.take(i as int)) == Some(
                            entry_models(out@),
                        ),
                    decreases data_fields@.len() - i,
                {
                    match receipt_from_json(&data_fields[i].1) {
                        Ok(rc) => {
                            let id = PushReceiptId::from_bytes(
                                slice_to_vec(data_fields[i].0.as_slice()),
                            );
                            let ghost rm = rc@;
                            let ghost idm = id@;
                            let ghost prev = out@;
                            out.push((id, rc));
                            proof {
                                assert(data_fields@.take(i + 1).drop_last() =~= data_fields@.take(
                                    i as int,
                                ));
                                assert(data_fields@.take(i + 1).last() == data_fields@[i as int]);
                                assert(idm == data_fields@[i as int].0@);
                                assert(entry_models(out@) =~= entry_models(prev).push((idm, rm)));
                            }
                        },
                        Err(e) => {
                            proof {
                                lemma_receipts_none(data_fields@, i as int);
                            }
                            return Err(e);
                        },
                    }
                    i += 1;
                }
                proof {
                    assert(data_fields@.take(data_fields@.len() as int) =~= data_fields@);
                }
                Ok(out)
            },
            _ => Err(ExpoNotificationError::Decoding),
        },
        _ => Err(ExpoNotificationError::Decoding),
    }
}

/// What a submission response body decodes to: `None` when the body is not
/// a JSON document or its envelope is not a ticket list, the tickets
/// otherwise.
pub open spec fn spec_push_response(body: Seq<u8>) -> Option<Seq<TicketModel>> {
    match sp_json(body) {
        None => None,
        Some(m) => spec_tickets_of_m(m),
    }
}

/// What a receipt-lookup response body decodes to.
pub open spec fn spec_receipt_response(body: Seq<u8>) -> Option<Seq<(Seq<u8>, ReceiptModel)>> {
    match sp_json(body) {
        None => None,
        Some(m) => spec_receipts_of_m(m),
    }
}

/// Decodes a submission response body: exactly the tickets the body's
/// envelope denotes, and a decoding error on every other body — never an
/// empty or defaulted result.
pub fn parse_push_response(body: &[u8]) -> (r: Result<Vec<PushTicket>, ExpoNotificationError>)
    ensures
        match spec_push_response(body@) {
            Some(ts) => (r matches Ok(out) && ticket_models(out@) == ts),
            None => r == Err::<Vec<PushTicket>, ExpoNotificationError>(
                ExpoNotificationError::Decoding,
            ),
        },
{
    match parse_json(body) {
        None => Err(ExpoNotificationError::Decoding),
        Some(v) => {
            let r = decode_push_tickets(&v);
            proof {
                lemma_tickets_bridge(v);
            }
            r
        },
    }
}

/// Decodes a receipt-lookup response body: exactly the id/receipt pairs the
/// body's envelope denotes, in envelope order, and a decoding error on
/// every other body.
pub fn parse_receipt_response(body: &[u8]) -> (r: Result<
    Vec<(PushReceiptId, PushReceipt)>,
    ExpoNotificationError,
>)
    ensures
        match spec_receipt_response(body@) {
            Some(pairs) => (r matches Ok(entries) && entry_models(entries@) == pairs),
            None => r == Err::<Vec<(PushReceiptId, PushReceipt)>, ExpoNotificationError>(
                ExpoNotificationError::Decoding,
            ),
        },
{
    match parse_json(body) {
        None => Err(ExpoNotificationError::Decoding),
        Some(v) => {
            let r = decode_push_receipts(&v);
            proof {
                lemma_receipts_bridge(v);
            }
            r
        },
    }
}

} // verus!
