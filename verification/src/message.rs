//! The outgoing domain model: push tokens, push messages with their fluent
//! builder, and the exact JSON rendering of a message.

use vstd::prelude::*;
use vstd::utf8::encode_utf8;
use crate::json::{dec_rep, json_string};

verus! {

/// An opaque token identifying the device or channel a message is sent to.
///
/// The token is validated only for being non-empty here; the gateway is the
/// authority on token format.
#[derive(Debug)]
pub struct PushToken {
    value: String,
}

impl View for PushToken {
    type V = Seq<char>;

    closed spec fn view(&self) -> Seq<char> {
        self.value@
    }
}

impl PushToken {
    /// Builds a token from its textual form; an empty string is rejected.
    pub fn from_string(value: String) -> (r: Option<PushToken>)
        ensures
            value@.len() == 0 <==> r is None,
            r matches Some(t) ==> t@ == value@,
    {
        if value.as_str().is_empty() {
            None
        } else {
            Some(PushToken { value })
        }
    }

    /// The textual form of the token.
    pub fn as_str(&self) -> (r: &str)
        ensures
            r@ == self@,
    {
        self.value.as_str()
    }
}

/// The mathematical value of a push message: its token and optional fields.
pub ghost struct MessageModel {
    pub to: Seq<char>,
    pub title: Option<Seq<char>>,
    pub body: Option<Seq<char>>,
    pub priority: Option<Seq<char>>,
    pub ttl: Option<u32>,
}

/// A notification message for one token, built fluently and never mutated
/// after being handed to a dispatcher.
#[derive(Debug)]
pub struct PushMessage {
    pub to: PushToken,
    pub title: Option<String>,
    pub body: Option<String>,
    pub priority: Option<String>,
    pub ttl: Option<u32>,
}

impl View for PushMessage {
    type V = MessageModel;

    open spec fn view(&self) -> MessageModel {
        MessageModel {
            to: self.to@,
            title: match self.title {
                Option::Some(s) => Option::Some(s@),
                Option::None => Option::None,
            },
            body: match self.body {
                Option::Some(s) => Option::Some(s@),
                Option::None => Option::None,
            },
            priority: match self.priority {
                Option::Some(s) => Option::Some(s@),
                Option::None => Option::None,
            },
            ttl: self.ttl,
        }
    }
}

impl PushMessage {
    /// A message to one token with no optional fields set.
    pub fn new(to: PushToken) -> (r: Self)
        ensures
            r@ == (MessageModel {
                to: to@,
                title: None,
                body: None,
                priority: None,
                ttl: None,
            }),
    {
        PushMessage { to, title: None, body: None, priority: None, ttl: None }
    }

    /// Sets the display title.
    pub fn title(self, title: &str) -> (r: Self)
        ensures
            r@ == (MessageModel { title: Some(title@), ..self@ }),
    {
        PushMessage { title: Some(title.to_owned()), ..self }
    }

    /// Sets the display body.
    pub fn body(self, body: &str) -> (r: Self)
        ensures
            r@ == (MessageModel { body: Some(body@), ..self@ }),
    {
        PushMessage { body: Some(body.to_owned()), ..self }
    }

    /// Sets the delivery priority.
    pub fn priority(self, priority: &str) -> (r: Self)
        ensures
            r@ == (MessageModel { priority: Some(priority@), ..self@ }),
    {
        PushMessage { priority: Some(priority.to_owned()), ..self }
    }

    /// Sets the time-to-live in seconds.
    pub fn ttl(self, ttl: u32) -> (r: Self)
        ensures
            r@ == (MessageModel { ttl: Some(ttl), ..self@ }),
    {
        PushMessage { ttl: Some(ttl), ..self }
    }
}

/// Opening brace and the mandatory `to` member of a rendered message.
#[verifier::opaque]
pub open spec fn mj_head(m: MessageModel) -> Seq<u8> {
    seq![123u8] + json_string(seq![116u8, 111u8]) + seq![58u8] + json_string(encode_utf8(m.to))
}

/// The `title` member of a rendered message, empty when the field is unset.
#[verifier::opaque]
pub open spec fn mj_title(m: MessageModel) -> Seq<u8> {
    match m.title {
        Option::Some(t) => seq![44u8] + json_string(seq![116u8, 105u8, 116u8, 108u8, 101u8])
            + seq![58u8] + json_string(encode_utf8(t)),
        Option::None => Seq::empty(),
    }
}

/// The `body` member of a rendered message, empty when the field is unset.
#[verifier::opaque]
pub open spec fn mj_body(m: MessageModel) -> Seq<u8> {
    match m.body {
        Option::Some(b) => seq![44u8] + json_string(seq![98u8, 111u8, 100u8, 121u8]) + seq![58u8]
            + json_string(encode_utf8(b)),
        Option::None => Seq::empty(),
    }
}

/// The `priority` member of a rendered message, empty when the field is unset.
#[verifier::opaque]
pub open spec fn mj_priority(m: MessageModel) -> Seq<u8> {
    match m.priority {
        Option::Some(p) => seq![44u8] + json_string(
            seq![112u8, 114u8, 105u8, 111u8, 114u8, 105u8, 116u8, 121u8],
        ) + seq![58u8] + json_string(encode_utf8(p)),
        Option::None => Seq::empty(),
    }
}

/// The `ttl` member of a rendered message, empty when the field is unset.
#[verifier::opaque]
pub open spec fn mj_ttl(m: MessageModel) -> Seq<u8> {
    match m.ttl {
        Option::Some(n) => seq![44u8] + json_string(seq![116u8, 116u8, 108u8]) + seq![58u8]
            + dec_rep(n as nat),
        Option::None => Seq::empty(),
    }
}

/// The exact wire rendering of one message: a JSON object holding `to` and
/// whichever optional fields are set, in a fixed field order.
pub open spec fn message_json(m: MessageModel) -> Seq<u8> {
    mj_head(m) + mj_title(m) + mj_body(m) + mj_priority(m) + mj_ttl(m) + seq![125u8]
}

/// Appends the JSON rendering of `m` to `out`.
#[verifier::rlimit(100)]
pub fn write_message_json(out: &mut Vec<u8>, m: &PushMessage)
    ensures
        final(out)@ == old(out)@ + message_json(m@),
{
    out.push(123);
    let key_to: Vec<u8> = vec![116u8, 111u8];
    crate::json::write_object_key(out, key_to.as_slice());
    crate::json::write_json_string(out, m.to.as_str().as_bytes());
    proof {
        reveal(mj_head);
        assert(out@ =~= old(out)@ + mj_head(m@));
    }
    match &m.title {
        Some(t) => {
            out.push(44);
            let key: Vec<u8> = vec![116u8, 105u8, 116u8, 108u8, 101u8];
            crate::json::write_object_key(out, key.as_slice());
            crate::json::write_json_string(out, t.as_str().as_bytes());
        },
        None => {},
    }
    proof {
        reveal(mj_title);
        assert(out@ =~= old(out)@ + mj_head(m@) + mj_title(m@));
    }
    match &m.body {
        Some(b) => {
            out.push(44);
            let key: Vec<u8> = vec![98u8, 111u8, 100u8, 121u8];
            crate::json::write_object_key(out, key.as_slice());
            crate::json::write_json_string(out, b.as_str().as_bytes());
        },
        None => {},
    }
    proof {
        reveal(mj_body);
        assert(out@ =~= old(out)@ + mj_head(m@) + mj_title(m@) + mj_body(m@));
    }
    match &m.priority {
        Some(p) => {
            out.push(44);
            let key: Vec<u8> = vec![112u8, 114u8, 105u8, 111u8, 114u8, 105u8, 116u8, 121u8];
            crate::json::write_object_key(out, key.as_slice());
            crate::json::write_json_string(out, p.as_str().as_bytes());
        },
        None => {},
    }
    proof {
        reveal(mj_priority);
        assert(out@ =~= old(out)@ + mj_head(m@) + mj_title(m@) + mj_body(m@) + mj_priority(m@));
    }
    match &m.ttl {
        Some(n) => {
            out.push(44);
            let key: Vec<u8> = vec![116u8, 116u8, 108u8];
            crate::json::write_object_key(out, key.as_slice());
            crate::json::write_u32(out, *n);
        },
        None => {},
    }
    proof {
        reveal(mj_ttl);
        assert(out@ =~= old(out)@ + mj_head(m@) + mj_title(m@) + mj_body(m@) + mj_priority(m@)
            + mj_ttl(m@));
    }
    out.push(125);
    proof {
        assert(out@ =~= old(out)@ + message_json(m@));
    }
}

} // verus!
