//! The client configuration: endpoint URLs, optional bearer credential,
//! compression policy, and chunk sizes. Built fluently, then effectively
//! immutable for the lifetime of the client. The transport handle that
//! sends the prepared requests lives with the surrounding application.

use vstd::prelude::*;
use crate::policy::GzipPolicy;

verus! {

/// Configuration of a push-notification client instance.
///
/// The chunk-size defaults are the bounds the gateway enforces: 100 for
/// message submission, 300 for receipt lookup. Exceeding them is a caller
/// error the gateway answers with a transport-level rejection; it is not
/// validated locally.
#[derive(Debug)]
pub struct ExpoNotificationsClient {
    pub push_url: String,
    pub receipt_url: String,
    pub authorization: Option<String>,
    pub gzip: GzipPolicy,
    pub push_chunk_size: usize,
    pub receipt_chunk_size: usize,
}

impl ExpoNotificationsClient {
    /// A client configured with the gateway's default endpoints, no bearer
    /// credential, no compression, and the documented default chunk sizes.
    pub fn new() -> (r: ExpoNotificationsClient)
        ensures
            r.push_url@ == "https://exp.host/--/api/v2/push/send"@,
            r.receipt_url@ == "https://exp.host/--/api/v2/push/getReceipts"@,
            r.authorization is None,
            r.gzip == GzipPolicy::Never,
            r.push_chunk_size == 100,
            r.receipt_chunk_size == 300,
    {
        ExpoNotificationsClient {
            push_url: "https://exp.host/--/api/v2/push/send".to_owned(),
            receipt_url: "https://exp.host/--/api/v2/push/getReceipts".to_owned(),
            authorization: None,
            gzip: GzipPolicy::Never,
            push_chunk_size: 100,
            receipt_chunk_size: 300,
        }
    }

    /// Overrides the submission endpoint.
    pub fn push_url(self, url: String) -> (r: Self)
        ensures
            r == (ExpoNotificationsClient { push_url: url, ..self }),
    {
        ExpoNotificationsClient { push_url: url, ..self }
    }

    /// Overrides the receipt-lookup endpoint.
    pub fn receipt_url(self, url: String) -> (r: Self)
        ensures
            r == (ExpoNotificationsClient { receipt_url: url, ..self }),
    {
        ExpoNotificationsClient { receipt_url: url, ..self }
    }

    /// Sets or clears the bearer credential attached to every request.
    pub fn authorization(self, token: Option<String>) -> (r: Self)
        ensures
            r == (ExpoNotificationsClient { authorization: token, ..self }),
    {
        ExpoNotificationsClient { authorization: token, ..self }
    }

    /// Sets the compression policy for outgoing request bodies.
    pub fn gzip(self, gzip: GzipPolicy) -> (r: Self)
        ensures
            r == (ExpoNotificationsClient { gzip, ..self }),
    {
        ExpoNotificationsClient { gzip, ..self }
    }

    /// Sets the submission chunk size. Should not exceed 100, the gateway's
    /// bound; zero is rejected when a dispatch is started.
    pub fn push_chunk_size(self, chunk_size: usize) -> (r: Self)
        ensures
            r == (ExpoNotificationsClient { push_chunk_size: chunk_size, ..self }),
    {
        ExpoNotificationsClient { push_chunk_size: chunk_size, ..self }
    }

    /// Sets the receipt-lookup chunk size. Should not exceed 300, the
    /// gateway's bound; zero is rejected when a dispatch is started.
    pub fn receipt_chunk_size(self, chunk_size: usize) -> (r: Self)
        ensures
            r == (ExpoNotificationsClient { receipt_chunk_size: chunk_size, ..self }),
    {
        ExpoNotificationsClient { receipt_chunk_size: chunk_size, ..self }
    }
}

} // verus!
