//! Error taxonomy of the client core.

use vstd::prelude::*;

verus! {

/// Every failure a public operation of this crate can surface.
///
/// The kinds are distinguished so that callers can decide whether to retry
/// (transport failures) or treat the failure as permanent (serialization and
/// decoding failures). No operation in this crate retries or recovers on its
/// own: a failure on any chunk aborts the whole multi-chunk call.
#[derive(Clone, Copy, Debug, PartialEq, Eq)]
pub enum ExpoNotificationError {
    /// A chunk-level serialization was attempted with zero items.
    Empty,
    /// A domain object could not be encoded to the wire format. The encoders
    /// in this crate are total, so this kind is reserved for domain-model
    /// collaborators whose encoding can fail.
    Serialization,
    /// Connection failure, timeout, or a non-2xx HTTP status; carries the
    /// status code where one was received.
    Transport(Option<u16>),
    /// The response body did not match the expected envelope shape.
    Decoding,
    /// The compression encoder failed while producing the request body.
    CompressionIo,
}

} // verus!
