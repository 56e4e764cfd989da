//! Client-side core of a bulk push-notification gateway client: chunking of
//! unbounded message sequences into bounded batches, a configurable gzip
//! policy, streaming JSON serialization of outgoing bodies, and decoding of
//! the gateway's response envelopes. The network send itself is the
//! surrounding application's job; every decision around it is made here.

pub mod client;
pub mod dispatch;
pub mod envelope;
pub mod errors;
pub mod json;
pub mod json_parse;
pub mod message;
pub mod policy;
pub mod receipts;
pub mod response;
pub mod serialize;
pub mod transport;

pub use client::ExpoNotificationsClient;
pub use errors::ExpoNotificationError;
pub use message::{PushMessage, PushToken};
pub use policy::GzipPolicy;
pub use receipts::ReceiptMap;
pub use response::{PushReceipt, PushReceiptId, PushTicket};
