//! The incoming domain model: receipt ids, per-message submission tickets,
//! and delivery receipts.

use vstd::prelude::*;
use vstd::utf8::encode_utf8;
use vstd::string::StrSliceExecFns;

verus! {

/// Compares two byte vectors for equality of contents.
pub fn bytes_eq(a: &Vec<u8>, b: &Vec<u8>) -> (r: bool)
    ensures
        r == (a@ == b@),
{
    if a.len() != b.len() {
        return false;
    }
    let mut i: usize = 0;
    while i < a.len()
        invariant
            i <= a@.len(),
            a@.len() == b@.len(),
            forall|k: int| 0 <= k < i ==> a@[k] == b@[k],
        decreases a@.len() - i,
    {
        if a[i] != b[i] {
            return false;
        }
        i += 1;
    }
    proof {
        assert(a@ =~= b@);
    }
    true
}

/// An opaque key, handed out by the gateway for a submitted message, used to
/// poll that message's delivery status. Held as its UTF-8 bytes.
#[derive(Debug, Hash)]
pub struct PushReceiptId {
    bytes: Vec<u8>,
}

impl View for PushReceiptId {
    type V = Seq<u8>;

    closed spec fn view(&self) -> Seq<u8> {
        self.bytes@
    }
}

impl PushReceiptId {
    /// An id from its textual form.
    pub fn from_string(s: &str) -> (r: PushReceiptId)
        ensures
            r@ == encode_utf8(s@),
    {
        PushReceiptId { bytes: s.as_bytes_vec() }
    }

    /// An id from its UTF-8 bytes.
    pub fn from_bytes(bytes: Vec<u8>) -> (r: PushReceiptId)
        ensures
            r@ == bytes@,
    {
        PushReceiptId { bytes }
    }

    /// The id's bytes.
    pub fn bytes(&self) -> (r: &Vec<u8>)
        ensures
            r@ == self@,
    {
        &self.bytes
    }
}

impl PartialEq for PushReceiptId {
    fn eq(&self, other: &Self) -> (r: bool) {
        bytes_eq(&self.bytes, &other.bytes)
    }
}

impl vstd::std_specs::cmp::PartialEqSpecImpl for PushReceiptId {
    open spec fn obeys_eq_spec() -> bool {
        true
    }

    open spec fn eq_spec(&self, other: &Self) -> bool {
        self@ == other@
    }
}

impl Eq for PushReceiptId {}

/// The mathematical value of a submission ticket.
pub ghost enum TicketModel {
    Success { id: Seq<u8> },
    Failure { message: Seq<u8> },
}

/// The outcome of submitting one message: a receipt id to poll later, or an
/// inline error description from the gateway.
#[derive(Debug, PartialEq)]
pub enum PushTicket {
    Success { id: PushReceiptId },
    Failure { message: Vec<u8> },
}

impl View for PushTicket {
    type V = TicketModel;

    open spec fn view(&self) -> TicketModel {
        match self {
            PushTicket::Success { id } => TicketModel::Success { id: id@ },
            PushTicket::Failure { message } => TicketModel::Failure { message: message@ },
        }
    }
}

/// The mathematical value of a delivery receipt.
pub ghost enum ReceiptModel {
    Success,
    Failure { message: Seq<u8> },
}

/// The delivery outcome for one receipt id: delivered, or a structured
/// failure description from the gateway.
#[derive(Debug, PartialEq)]
pub enum PushReceipt {
    Success,
    Failure { message: Vec<u8> },
}

impl View for PushReceipt {
    type V = ReceiptModel;

    open spec fn view(&self) -> ReceiptModel {
        match self {
            PushReceipt::Success => ReceiptModel::Success,
            PushReceipt::Failure { message } => ReceiptModel::Failure { message: message@ },
        }
    }
}

} // verus!
