//! Compression-decision policy for outgoing request payloads.

use vstd::prelude::*;

verus! {

/// Decides whether an outgoing payload is gzip-compressed before transmission.
///
/// The threshold of `ZipGreaterThanTreshold` is measured on the uncompressed
/// serialized payload in bytes, not on the number of messages.
#[derive(Clone, Copy, Debug, PartialEq, Eq, Structural)]
pub enum GzipPolicy {
    /// Never compress the payload.
    Never,
    /// Always compress the payload.
    Always,
    /// Compress only payloads strictly larger than this many bytes.
    ZipGreaterThanTreshold(usize),
}

impl Default for GzipPolicy {
    /// The default policy never compresses.
    fn default() -> (r: Self)
        ensures
            r == GzipPolicy::Never,
    {
        GzipPolicy::Never
    }
}

/// What `should_compress` decides: `Never` refuses, `Always` accepts, and a
/// threshold accepts exactly the payloads strictly larger than it.
pub open spec fn spec_should_compress(policy: GzipPolicy, payload_len: nat) -> bool {
    match policy {
        GzipPolicy::Never => false,
        GzipPolicy::Always => true,
        GzipPolicy::ZipGreaterThanTreshold(t) => payload_len > t,
    }
}

/// The compression-policy law: `Never` refuses every payload, `Always`
/// accepts every payload, and a threshold policy refuses a payload exactly
/// at the threshold while accepting one a single byte larger.
pub proof fn lemma_policy_decision(n: nat, t: usize)
    ensures
        !spec_should_compress(GzipPolicy::Never, n),
        spec_should_compress(GzipPolicy::Always, n),
        !spec_should_compress(GzipPolicy::ZipGreaterThanTreshold(t), t as nat),
        spec_should_compress(GzipPolicy::ZipGreaterThanTreshold(t), t as nat + 1),
{
}

/// Returns `true` iff `policy` selects compression for a payload of
/// `payload_len` bytes. A payload exactly at the threshold is not compressed.
pub fn should_compress(policy: &GzipPolicy, payload_len: usize) -> (r: bool)
    ensures
        r == spec_should_compress(*policy, payload_len as nat),
{
    match policy {
        GzipPolicy::Never => false,
        GzipPolicy::Always => true,
        GzipPolicy::ZipGreaterThanTreshold(t) => payload_len > *t,
    }
}

} // verus!
