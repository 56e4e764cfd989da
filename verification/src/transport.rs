//! Preparation of a serialized body for the transport: the compression
//! decision, the gzip encoding itself, and the conversion of HTTP statuses
//! into the error taxonomy. Sending the request is the surrounding
//! application's job; everything decided about it is decided here.

use vstd::prelude::*;
use vstd::string::StringExecFns;
use crate::errors::ExpoNotificationError;
use crate::policy::{should_compress, spec_should_compress, GzipPolicy};

verus! {

#[verifier::external_type_specification]
#[verifier::external_body]
pub struct ExIoError(std::io::Error);

/// What the gzip encoder produces for the given input bytes.
pub uninterp spec fn gzip_of(data: Seq<u8>) -> Seq<u8>;

/// Relies on flate2's `GzEncoder` over an in-memory buffer at the default
/// compression level: with the default header (zero mtime, operating-system
/// byte fixed at "unknown"), the compressed stream is a function of the
/// input bytes alone.
#[verifier::external_body]
fn gzip_compress(data: &Vec<u8>) -> (r: Result<Vec<u8>, std::io::Error>)
    ensures
        r matches Ok(out) ==> out@ == gzip_of(data@),
{
    let mut encoder = flate2::write::GzEncoder::new(Vec::new(), flate2::Compression::default());
    std::io::Write::write_all(&mut encoder, data.as_slice())?;
    encoder.finish()
}

/// A request body ready to hand to the transport. When `gzipped` holds, the
/// body was compressed and the request must carry `Content-Encoding: gzip`;
/// the constant headers (`Accept`, `Accept-Encoding`, `Content-Type`) and
/// the optional bearer credential are the transport's to attach.
#[derive(Debug)]
pub struct PreparedRequest {
    pub body: Vec<u8>,
    pub gzipped: bool,
}

/// Applies the compression policy to a serialized payload, measured on its
/// uncompressed byte length. A failure of the encoder is a compression I/O
/// error; no other error can arise.
pub fn prepare_body(policy: &GzipPolicy, payload: Vec<u8>) -> (r: Result<
    PreparedRequest,
    ExpoNotificationError,
>)
    ensures
        !spec_should_compress(*policy, payload@.len()) ==> (r matches Ok(pr) && pr.gzipped == false
            && pr.body@ == payload@),
        spec_should_compress(*policy, payload@.len()) ==> match r {
            Ok(pr) => pr.gzipped == true && pr.body@ == gzip_of(payload@),
            Err(e) => e == ExpoNotificationError::CompressionIo,
        },
{
    if should_compress(policy, payload.len()) {
        match gzip_compress(&payload) {
            Ok(body) => Ok(PreparedRequest { body, gzipped: true }),
            Err(_) => Err(ExpoNotificationError::CompressionIo),
        }
    } else {
        Ok(PreparedRequest { body: payload, gzipped: false })
    }
}

/// The headers of a request, in order: the constant `Accept`,
/// `Accept-Encoding` (gzip and deflate) and `Content-Type` headers; then
/// `Content-Encoding: gzip` exactly when the body was compressed; then the
/// bearer credential exactly when one is configured.
pub fn request_headers(gzipped: bool, authorization: &Option<String>) -> (r: Vec<(String, String)>)
    ensures
        r@.len() == 4 + (if gzipped {
            1int
        } else {
            0int
        }) + (if authorization is Some {
            1int
        } else {
            0int
        }),
        r@[0].0@ == "Accept"@ && r@[0].1@ == "application/json"@,
        r@[1].0@ == "Accept-Encoding"@ && r@[1].1@ == "gzip"@,
        r@[2].0@ == "Accept-Encoding"@ && r@[2].1@ == "deflate"@,
        r@[3].0@ == "Content-Type"@ && r@[3].1@ == "application/json"@,
        gzipped ==> r@[4].0@ == "Content-Encoding"@ && r@[4].1@ == "gzip"@,
        authorization matches Some(token) ==> ({
            let k = if gzipped {
                5int
            } else {
                4int
            };
            r@[k].0@ == "Authorization"@ && r@[k].1@ == "Bearer "@ + token@
        }),
{
    let mut r: Vec<(String, String)> = Vec::new();
    r.push(("Accept".to_owned(), "application/json".to_owned()));
    r.push(("Accept-Encoding".to_owned(), "gzip".to_owned()));
    r.push(("Accept-Encoding".to_owned(), "deflate".to_owned()));
    r.push(("Content-Type".to_owned(), "application/json".to_owned()));
    if gzipped {
        r.push(("Content-Encoding".to_owned(), "gzip".to_owned()));
    }
    match authorization {
        Some(token) => {
            let value = "Bearer ".to_owned().concat(token.as_str());
            r.push(("Authorization".to_owned(), value));
        },
        None => {},
    }
    r
}

/// Converts an HTTP status into the taxonomy: any non-2xx status is a
/// transport failure carrying that status; nothing of the response body is
/// inspected here.
pub fn check_status(status: u16) -> (r: Result<(), ExpoNotificationError>)
    ensures
        200 <= status < 300 ==> r == Ok::<(), ExpoNotificationError>(()),
        !(200 <= status < 300) ==> r == Err::<(), ExpoNotificationError>(
            ExpoNotificationError::Transport(Some(status)),
        ),
{
    if 200 <= status && status < 300 {
        Ok(())
    } else {
        Err(ExpoNotificationError::Transport(Some(status)))
    }
}

} // verus!
