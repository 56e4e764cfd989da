//! The chunking dispatchers: they split an input sequence into bounded
//! chunks, hand out one prepared request per chunk, and fold each chunk's
//! decoded response back in, strictly one chunk at a time. The surrounding
//! application performs the network send between `next_request` and
//! `apply_response`; every decision — chunk boundaries, serialization,
//! compression, decoding, merging — is made and verified here. A failure on
//! any chunk leaves the caller with an error for the whole call: no partial
//! result is ever handed out.

use vstd::prelude::*;
use vstd::slice::slice_subrange;
use crate::envelope::{
    parse_push_response, parse_receipt_response, spec_push_response, spec_receipt_response,
    ticket_models,
};
use crate::errors::ExpoNotificationError;
use crate::message::{MessageModel, PushMessage};
use crate::policy::{spec_should_compress, GzipPolicy};
use crate::receipts::{entry_models, map_of_pairs, ReceiptMap};
use crate::response::{PushReceipt, PushReceiptId, ReceiptModel, PushTicket, TicketModel};
use crate::serialize::{
    id_models, message_models, push_list_body, receipt_list_body, serialize_ids_into_json_list,
    serialize_into_json_list,
};
use crate::transport::{gzip_of, prepare_body, PreparedRequest};

verus! {

/// How many chunk-level sends a dispatch of `n` items with chunk size `c`
/// issues: one per started chunk.
pub open spec fn num_chunks(n: nat, c: nat) -> nat
    recommends
        c >= 1,
    decreases n,
{
    if c == 0 {
        0
    } else if n == 0 {
        0
    } else if n <= c {
        1
    } else {
        1 + num_chunks((n - c) as nat, c)
    }
}

/// A dispatch never issues more sends than it has items.
pub proof fn lemma_num_chunks_le(n: nat, c: nat)
    requires
        c >= 1,
    ensures
        num_chunks(n, c) <= n,
    decreases n,
{
    if n > c {
        lemma_num_chunks_le((n - c) as nat, c);
    }
}

/// The sizes of the chunks a dispatch of `n` items with chunk size `c`
/// sends, in order: every chunk is full except possibly the last.
pub open spec fn chunk_sizes(n: nat, c: nat) -> Seq<nat>
    recommends
        c >= 1,
    decreases n,
{
    if c == 0 || n == 0 {
        Seq::empty()
    } else if n <= c {
        seq![n]
    } else {
        seq![c] + chunk_sizes((n - c) as nat, c)
    }
}

/// The sum of a sequence of sizes.
pub open spec fn sum_of(s: Seq<nat>) -> nat
    decreases s.len(),
{
    if s.len() == 0 {
        0
    } else {
        s[0] + sum_of(s.skip(1))
    }
}

/// The chunks of a dispatch partition its input: there is one per
/// chunk-level send, none is empty or over-full, and together they cover
/// every item exactly once — so when the gateway answers one ticket per
/// message, the concatenated results have the input's length.
pub proof fn lemma_chunk_sizes_partition(n: nat, c: nat)
    requires
        c >= 1,
    ensures
        chunk_sizes(n, c).len() == num_chunks(n, c),
        sum_of(chunk_sizes(n, c)) == n,
        forall|k: int|
            0 <= k < chunk_sizes(n, c).len() ==> 1 <= #[trigger] chunk_sizes(n, c)[k] <= c,
    decreases n,
{
    if n == 0 {
    } else if n <= c {
        assert(seq![n].skip(1) =~= Seq::<nat>::empty());
        assert(sum_of(chunk_sizes(n, c)) == n + sum_of(Seq::<nat>::empty()));
    } else {
        lemma_chunk_sizes_partition((n - c) as nat, c);
        let rest = chunk_sizes((n - c) as nat, c);
        assert((seq![c] + rest).skip(1) =~= rest);
        assert((seq![c] + rest)[0] == c);
        assert(sum_of(chunk_sizes(n, c)) == c + sum_of(rest));
    }
}

/// The number of chunk-level sends is the ceiling of `n / c`.
pub proof fn lemma_num_chunks_is_ceil(n: nat, c: nat)
    requires
        c >= 1,
    ensures
        num_chunks(n, c) == (n + c - 1) as int / c as int,
    decreases n,
{
    if n == 0 {
        assert((c - 1) as int / c as int == 0) by (nonlinear_arith)
            requires
                c >= 1,
        ;
    } else if n <= c {
        assert((n + c - 1) as int / c as int == 1) by (nonlinear_arith)
            requires
                1 <= n <= c,
        ;
    } else {
        lemma_num_chunks_is_ceil((n - c) as nat, c);
        vstd::arithmetic::div_mod::lemma_div_plus_one((n - 1) as int, c as int);
    }
}

/// The single-chunk submission primitive: serializes one whole chunk of
/// messages and prepares its body. An empty chunk is the `Empty` error —
/// its wire payload would be degenerate — reported before anything else
/// happens; the multi-item entry point checks for emptiness instead and
/// never calls this.
pub fn build_push_chunk_request(policy: &GzipPolicy, messages: &[PushMessage]) -> (r: Result<
    PreparedRequest,
    ExpoNotificationError,
>)
    ensures
        messages@.len() == 0 ==> r == Err::<PreparedRequest, ExpoNotificationError>(
            ExpoNotificationError::Empty,
        ),
        messages@.len() > 0 ==> ({
            let payload = push_list_body(message_models(messages@));
            match r {
                Ok(pr) => pr.gzipped == spec_should_compress(*policy, payload.len()) && pr.body@
                    == if spec_should_compress(*policy, payload.len()) {
                    gzip_of(payload)
                } else {
                    payload
                },
                Err(e) => e == ExpoNotificationError::CompressionIo && spec_should_compress(
                    *policy,
                    payload.len(),
                ),
            }
        }),
{
    let mut buffer: Vec<u8> = Vec::new();
    match serialize_into_json_list(messages, &mut buffer) {
        Err(e) => Err(e),
        Ok(()) => prepare_body(policy, buffer),
    }
}

/// The single-chunk receipt-lookup primitive: serializes one whole chunk of
/// ids and prepares its body. An empty chunk is the `Empty` error.
pub fn build_receipt_chunk_request(policy: &GzipPolicy, ids: &[PushReceiptId]) -> (r: Result<
    PreparedRequest,
    ExpoNotificationError,
>)
    ensures
        ids@.len() == 0 ==> r == Err::<PreparedRequest, ExpoNotificationError>(
            ExpoNotificationError::Empty,
        ),
        ids@.len() > 0 ==> ({
            let payload = receipt_list_body(id_models(ids@));
            match r {
                Ok(pr) => pr.gzipped == spec_should_compress(*policy, payload.len()) && pr.body@
                    == if spec_should_compress(*policy, payload.len()) {
                    gzip_of(payload)
                } else {
                    payload
                },
                Err(e) => e == ExpoNotificationError::CompressionIo && spec_should_compress(
                    *policy,
                    payload.len(),
                ),
            }
        }),
{
    let mut buffer: Vec<u8> = Vec::new();
    match serialize_ids_into_json_list(ids, &mut buffer) {
        Err(e) => Err(e),
        Ok(()) => prepare_body(policy, buffer),
    }
}

/// The tail of the single-message convenience call: the one ticket of a
/// one-element submission. A response whose ticket list is empty is an
/// envelope mismatch for that call, a decoding error.
pub fn single_ticket(tickets: Vec<PushTicket>) -> (r: Result<PushTicket, ExpoNotificationError>)
    ensures
        tickets@.len() == 0 ==> r == Err::<PushTicket, ExpoNotificationError>(
            ExpoNotificationError::Decoding,
        ),
        tickets@.len() > 0 ==> (r matches Ok(t) && t@ == ticket_models(tickets@).last()),
{
    let mut tickets = tickets;
    match tickets.pop() {
        Some(t) => Ok(t),
        None => Err(ExpoNotificationError::Decoding),
    }
}

/// The tail of the single-id convenience call: the receipt of the first
/// entry of the merged mapping, or `None` when the gateway omitted the id.
pub fn sole_receipt(map: ReceiptMap) -> (r: Option<PushReceipt>)
    ensures
        r is Some <==> map.models().len() > 0,
        r matches Some(rc) ==> rc@ == map.models()[0].1,
{
    let mut entries = map.into_entries();
    if entries.len() == 0 {
        None
    } else {
        let (_id, receipt) = entries.remove(0);
        Some(receipt)
    }
}

/// A submission call in progress: the messages, the chunk cursor, and the
/// tickets accumulated from the chunks answered so far.
#[derive(Debug)]
pub struct PushDispatcher {
    messages: Vec<PushMessage>,
    chunk_size: usize,
    next: usize,
    requests: usize,
    tickets: Vec<PushTicket>,
}

impl PushDispatcher {
    /// All messages of the call.
    pub closed spec fn msgs(&self) -> Seq<MessageModel> {
        message_models(self.messages@)
    }

    /// The configured chunk size.
    pub closed spec fn chunk(&self) -> nat {
        self.chunk_size as nat
    }

    /// How many leading messages are covered by issued requests.
    pub closed spec fn sent(&self) -> nat {
        self.next as nat
    }

    /// How many chunk-level requests have been issued.
    pub closed spec fn requests_made(&self) -> nat {
        self.requests as nat
    }

    /// The tickets accumulated so far, in chunk order.
    pub closed spec fn tickets_seq(&self) -> Seq<TicketModel> {
        ticket_models(self.tickets@)
    }

    /// The dispatcher's invariant: a positive chunk size, a cursor inside
    /// the input, and one request made per chunk already covered.
    pub open spec fn wf(&self) -> bool {
        &&& self.chunk() >= 1
        &&& self.sent() <= self.msgs().len()
        &&& self.requests_made() + num_chunks(
            (self.msgs().len() - self.sent()) as nat,
            self.chunk(),
        ) == num_chunks(self.msgs().len(), self.chunk())
    }

    /// Whether every chunk has been submitted and answered.
    pub open spec fn done(&self) -> bool {
        self.sent() == self.msgs().len()
    }

    /// The models of the next chunk to be sent.
    pub open spec fn chunk_models(&self) -> Seq<MessageModel> {
        self.msgs().subrange(
            self.sent() as int,
            if self.sent() + self.chunk() <= self.msgs().len() {
                (self.sent() + self.chunk()) as int
            } else {
                self.msgs().len() as int
            },
        )
    }

    /// Starts a submission call. A chunk size of zero is a configuration
    /// error, rejected here so that no dispatch can loop forever.
    pub fn new(messages: Vec<PushMessage>, chunk_size: usize) -> (r: Self)
        requires
            chunk_size >= 1,
        ensures
            r.wf(),
            r.msgs() == message_models(messages@),
            r.chunk() == chunk_size,
            r.sent() == 0,
            r.requests_made() == 0,
            r.tickets_seq() == Seq::<TicketModel>::empty(),
    {
        let r = PushDispatcher { messages, chunk_size, next: 0, requests: 0, tickets: Vec::new() };
        proof {
            assert(r.tickets_seq() =~= Seq::<TicketModel>::empty());
        }
        r
    }

    /// Whether the whole input has been dispatched.
    pub fn is_done(&self) -> (r: bool)
        ensures
            r == self.done(),
    {
        self.next == self.messages.len()
    }

    /// The number of chunk-level requests issued so far.
    pub fn requests_issued(&self) -> (r: usize)
        ensures
            r == self.requests_made(),
    {
        self.requests
    }

    /// Serializes the next chunk and applies the compression policy to it.
    /// The chunk is never empty, so no `Empty` error can arise here; only
    /// the compression encoder can fail.
    pub fn next_request(&self, policy: &GzipPolicy) -> (r: Result<
        PreparedRequest,
        ExpoNotificationError,
    >)
        requires
            self.wf(),
            !self.done(),
        ensures
            ({
                let payload = push_list_body(self.chunk_models());
                match r {
                    Ok(pr) => pr.gzipped == spec_should_compress(*policy, payload.len())
                        && pr.body@ == if spec_should_compress(*policy, payload.len()) {
                        gzip_of(payload)
                    } else {
                        payload
                    },
                    Err(e) => e == ExpoNotificationError::CompressionIo && spec_should_compress(
                        *policy,
                        payload.len(),
                    ),
                }
            }),
    {
        let len = self.messages.len();
        let end = if self.chunk_size <= len - self.next {
            self.next + self.chunk_size
        } else {
            len
        };
        let chunk = slice_subrange(self.messages.as_slice(), self.next, end);
        proof {
            assert(message_models(chunk@) =~= self.chunk_models());
        }
        let mut buffer: Vec<u8> = Vec::new();
        match serialize_into_json_list(chunk, &mut buffer) {
            Err(e) => Err(e),
            Ok(()) => prepare_body(policy, buffer),
        }
    }

    /// Folds one chunk's response body in: decodes the ticket list, appends
    /// it in order, and advances the cursor past the chunk. On a decoding
    /// error nothing changes and the caller must abort the call.
    pub fn apply_response(&mut self, body: &[u8]) -> (r: Result<usize, ExpoNotificationError>)
        requires
            old(self).wf(),
            !old(self).done(),
        ensures
            match spec_push_response(body@) {
                None => r == Err::<usize, ExpoNotificationError>(ExpoNotificationError::Decoding)
                    && *final(self) == *old(self),
                Some(ts) => {
                    &&& r matches Ok(k) && k == ts.len()
                    &&& final(self).wf()
                    &&& final(self).msgs() == old(self).msgs()
                    &&& final(self).chunk() == old(self).chunk()
                    &&& final(self).requests_made() == old(self).requests_made() + 1
                    &&& final(self).sent() == (if old(self).sent() + old(self).chunk() <= old(
                        self,
                    ).msgs().len() {
                        old(self).sent() + old(self).chunk()
                    } else {
                        old(self).msgs().len()
                    })
                    &&& final(self).tickets_seq() == old(self).tickets_seq() + ts
                },
            },
    {
        match parse_push_response(body) {
            Err(e) => Err(e),
            Ok(ts) => {
                let k = ts.len();
                let ghost added = ticket_models(ts@);
                let ghost prev = self.tickets@;
                let mut ts = ts;
                self.tickets.append(&mut ts);
                let len = self.messages.len();
                proof {
                    lemma_num_chunks_le(self.msgs().len(), self.chunk());
                }
                if self.chunk_size <= len - self.next {
                    self.next = self.next + self.chunk_size;
                } else {
                    self.next = len;
                }
                self.requests = self.requests + 1;
                proof {
                    assert(ticket_models(self.tickets@) =~= ticket_models(prev) + added);
                    assert((ticket_models(prev) + added).take(ticket_models(prev).len() as int)
                        =~= ticket_models(prev));
                    assert((ticket_models(prev) + added).skip(ticket_models(prev).len() as int)
                        =~= added);
                }
                Ok(k)
            },
        }
    }

    /// Hands the accumulated tickets out, in input order, once every chunk
    /// is answered; by then exactly one request per started chunk was made.
    pub fn finish(self) -> (r: Vec<PushTicket>)
        requires
            self.wf(),
            self.done(),
        ensures
            ticket_models(r@) == self.tickets_seq(),
            self.requests_made() == num_chunks(self.msgs().len(), self.chunk()),
    {
        self.tickets
    }
}

/// The length leg of the chunking law, one step at a time: one ticket per
/// message is the gateway's invariant, not something this client can
/// promise, but when a chunk's response does carry one ticket per message
/// of the chunk, the accumulated ticket count keeps tracking the cursor.
/// `apply_response` pins both sides: the tickets appended are exactly the
/// response body's, and the cursor advances by exactly the chunk's size.
pub proof fn lemma_ticket_count_tracks_cursor(
    before: &PushDispatcher,
    after: &PushDispatcher,
    ts: Seq<TicketModel>,
)
    requires
        after.tickets_seq() == before.tickets_seq() + ts,
        after.sent() >= before.sent(),
        ts.len() == after.sent() - before.sent(),
        before.tickets_seq().len() == before.sent(),
    ensures
        after.tickets_seq().len() == after.sent(),
{
}

/// Chained over every chunk of a call, the previous law yields the whole
/// statement: a completed dispatch whose count tracked the cursor holds
/// exactly one ticket per input message.
pub proof fn lemma_ticket_count_complete(d: &PushDispatcher)
    requires
        d.done(),
        d.tickets_seq().len() == d.sent(),
    ensures
        d.tickets_seq().len() == d.msgs().len(),
{
}

/// An empty input yields a dispatcher that is already done, with no request
/// made and no ticket accumulated: the multi-item entry point answers it
/// without any network call.
pub proof fn lemma_empty_input_is_done(d: &PushDispatcher)
    requires
        d.wf(),
        d.msgs().len() == 0,
    ensures
        d.done(),
        d.requests_made() == 0,
{
}

/// A receipt-lookup call in progress: the ids, the chunk cursor, and the
/// merged mapping accumulated from the chunks answered so far.
#[derive(Debug)]
pub struct ReceiptDispatcher {
    ids: Vec<PushReceiptId>,
    chunk_size: usize,
    next: usize,
    requests: usize,
    receipts: ReceiptMap,
}

impl ReceiptDispatcher {
    /// All ids of the call.
    pub closed spec fn id_seq(&self) -> Seq<Seq<u8>> {
        id_models(self.ids@)
    }

    /// The configured chunk size.
    pub closed spec fn chunk(&self) -> nat {
        self.chunk_size as nat
    }

    /// How many leading ids are covered by issued requests.
    pub closed spec fn sent(&self) -> nat {
        self.next as nat
    }

    /// How many chunk-level requests have been issued.
    pub closed spec fn requests_made(&self) -> nat {
        self.requests as nat
    }

    /// The merged mapping so far.
    pub closed spec fn mapping(&self) -> Map<Seq<u8>, ReceiptModel> {
        self.receipts@
    }

    /// The id/receipt pairs accumulated so far, in arrival order.
    pub closed spec fn pairs(&self) -> Seq<(Seq<u8>, ReceiptModel)> {
        self.receipts.models()
    }

    /// The dispatcher's invariant.
    pub open spec fn wf(&self) -> bool {
        &&& self.chunk() >= 1
        &&& self.sent() <= self.id_seq().len()
        &&& self.requests_made() + num_chunks(
            (self.id_seq().len() - self.sent()) as nat,
            self.chunk(),
        ) == num_chunks(self.id_seq().len(), self.chunk())
    }

    /// Whether every chunk has been submitted and answered.
    pub open spec fn done(&self) -> bool {
        self.sent() == self.id_seq().len()
    }

    /// The ids of the next chunk to be sent.
    pub open spec fn chunk_ids(&self) -> Seq<Seq<u8>> {
        self.id_seq().subrange(
            self.sent() as int,
            if self.sent() + self.chunk() <= self.id_seq().len() {
                (self.sent() + self.chunk()) as int
            } else {
                self.id_seq().len() as int
            },
        )
    }

    /// Starts a receipt-lookup call. A chunk size of zero is a
    /// configuration error, rejected here.
    pub fn new(ids: Vec<PushReceiptId>, chunk_size: usize) -> (r: Self)
        requires
            chunk_size >= 1,
        ensures
            r.wf(),
            r.id_seq() == id_models(ids@),
            r.chunk() == chunk_size,
            r.sent() == 0,
            r.requests_made() == 0,
            r.mapping() == Map::<Seq<u8>, ReceiptModel>::empty(),
            r.pairs() == Seq::<(Seq<u8>, ReceiptModel)>::empty(),
    {
        ReceiptDispatcher { ids, chunk_size, next: 0, requests: 0, receipts: ReceiptMap::new() }
    }

    /// Whether the whole input has been dispatched.
    pub fn is_done(&self) -> (r: bool)
        ensures
            r == self.done(),
    {
        self.next == self.ids.len()
    }

    /// The number of chunk-level requests issued so far.
    pub fn requests_issued(&self) -> (r: usize)
        ensures
            r == self.requests_made(),
    {
        self.requests
    }

    /// Serializes the next chunk of ids and applies the compression policy.
    pub fn next_request(&self, policy: &GzipPolicy) -> (r: Result<
        PreparedRequest,
        ExpoNotificationError,
    >)
        requires
            self.wf(),
            !self.done(),
        ensures
            ({
                let payload = receipt_list_body(self.chunk_ids());
                match r {
                    Ok(pr) => pr.gzipped == spec_should_compress(*policy, payload.len())
                        && pr.body@ == if spec_should_compress(*policy, payload.len()) {
                        gzip_of(payload)
                    } else {
                        payload
                    },
                    Err(e) => e == ExpoNotificationError::CompressionIo && spec_should_compress(
                        *policy,
                        payload.len(),
                    ),
                }
            }),
    {
        let len = self.ids.len();
        let end = if self.chunk_size <= len - self.next {
            self.next + self.chunk_size
        } else {
            len
        };
        let chunk = slice_subrange(self.ids.as_slice(), self.next, end);
        proof {
            assert(id_models(chunk@) =~= self.chunk_ids());
        }
        let mut buffer: Vec<u8> = Vec::new();
        match serialize_ids_into_json_list(chunk, &mut buffer) {
            Err(e) => Err(e),
            Ok(()) => prepare_body(policy, buffer),
        }
    }

    /// Folds one chunk's response body in: decodes the id-to-receipt
    /// object and merges it, later chunks overwriting duplicate ids. Ids
    /// the gateway omitted simply stay absent; omission is no error. On a
    /// decoding error nothing changes and the caller must abort the call.
    pub fn apply_response(&mut self, body: &[u8]) -> (r: Result<usize, ExpoNotificationError>)
        requires
            old(self).wf(),
            !old(self).done(),
        ensures
            match spec_receipt_response(body@) {
                None => r == Err::<usize, ExpoNotificationError>(ExpoNotificationError::Decoding)
                    && *final(self) == *old(self),
                Some(pairs) => {
                    &&& r matches Ok(k) && k == pairs.len()
                    &&& final(self).wf()
                    &&& final(self).id_seq() == old(self).id_seq()
                    &&& final(self).chunk() == old(self).chunk()
                    &&& final(self).requests_made() == old(self).requests_made() + 1
                    &&& final(self).sent() == (if old(self).sent() + old(self).chunk() <= old(
                        self,
                    ).id_seq().len() {
                        old(self).sent() + old(self).chunk()
                    } else {
                        old(self).id_seq().len()
                    })
                    &&& final(self).pairs() == old(self).pairs() + pairs
                    &&& final(self).mapping() == old(self).mapping().union_prefer_right(
                        map_of_pairs(pairs),
                    )
                },
            },
    {
        match parse_receipt_response(body) {
            Err(e) => Err(e),
            Ok(entries) => {
                let ghost added = entry_models(entries@);
                let ghost prev = self.receipts.models();
                let k = self.receipts.merge_entries(entries);
                let len = self.ids.len();
                proof {
                    lemma_num_chunks_le(self.id_seq().len(), self.chunk());
                }
                if self.chunk_size <= len - self.next {
                    self.next = self.next + self.chunk_size;
                } else {
                    self.next = len;
                }
                self.requests = self.requests + 1;
                proof {
                    assert((prev + added).take(prev.len() as int) =~= prev);
                    assert((prev + added).skip(prev.len() as int) =~= added);
                }
                Ok(k)
            },
        }
    }

    /// Hands the merged mapping out once every chunk is answered; by then
    /// exactly one request per started chunk was made.
    pub fn finish(self) -> (r: ReceiptMap)
        requires
            self.wf(),
            self.done(),
        ensures
            r@ == self.mapping(),
            r.models() == self.pairs(),
            self.requests_made() == num_chunks(self.id_seq().len(), self.chunk()),
    {
        self.receipts
    }
}

/// An empty input yields a receipt dispatcher that is already done, with no
/// request made and an empty mapping.
pub proof fn lemma_empty_receipt_input_is_done(d: &ReceiptDispatcher)
    requires
        d.wf(),
        d.id_seq().len() == 0,
    ensures
        d.done(),
        d.requests_made() == 0,
{
}

} // verus!
