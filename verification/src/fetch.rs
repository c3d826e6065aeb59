//! Fetch client core: the bounded receive buffer and the UTF-8
//! decoding of the one-shot HTTP response body. The transport itself
//! stays outside; this module decides what a complete body yields.

use vstd::prelude::*;
use vstd::utf8::{decode_utf8, valid_utf8};

verus! {

/// The fixed receive-buffer size: the largest response body the client
/// can hold, in bytes.
pub const RX_BUFFER_SIZE: usize = 32000;

/// The fixed transmit-buffer size, in bytes.
pub const TX_BUFFER_SIZE: usize = 4096;

/// How the one-shot fetch can fail: a body over the receive buffer, a
/// body that is not UTF-8 text, or any transport-level failure, kept
/// opaque.
#[derive(Clone, Copy, Debug, PartialEq, Eq, Structural)]
pub enum FetchError {
    Oversize,
    InvalidUtf8,
    Transport,
}

/// Whether the TLS client verifies the server's identity. It does
/// not: the endpoint is fixed and known, and the source design accepts
/// any certificate. This is a deliberate trust-boundary weakness, kept
/// explicit here rather than inherited silently; any transport built
/// on it must treat the channel as unauthenticated.
pub const TLS_PEER_VERIFICATION: bool = false;

/// The fixed calendar endpoint of one household.
pub fn calendar_url() -> (r: &'static str)
    ensures
        r@ == "https://backend.stadtreinigung.hamburg/kalender/abholtermine.ics?hnIds=44353"@,
{
    "https://backend.stadtreinigung.hamburg/kalender/abholtermine.ics?hnIds=44353"
}

/// The receive buffer: response chunks accumulate here and may never
/// exceed `RX_BUFFER_SIZE` in total.
pub struct BodyBuffer {
    data: Vec<u8>,
}

impl BodyBuffer {
    /// The bytes received so far.
    pub closed spec fn bytes(self) -> Seq<u8> {
        self.data@
    }

    pub closed spec fn wf(self) -> bool {
        self.data@.len() <= RX_BUFFER_SIZE
    }

    pub fn new() -> (b: BodyBuffer)
        ensures
            b.wf(),
            b.bytes() == Seq::<u8>::empty(),
    {
        BodyBuffer { data: Vec::new() }
    }

    /// Append one received chunk. A chunk that would push the total
    /// over the buffer size is refused whole, with `Oversize`.
    pub fn extend(&mut self, chunk: &[u8]) -> (r: Result<(), FetchError>)
        requires
            old(self).wf(),
        ensures
            final(self).wf(),
            (match r {
                Ok(_) => {
                    &&& old(self).bytes().len() + chunk@.len() <= RX_BUFFER_SIZE
                    &&& final(self).bytes() == old(self).bytes() + chunk@
                },
                Err(e) => {
                    &&& e == FetchError::Oversize
                    &&& old(self).bytes().len() + chunk@.len() > RX_BUFFER_SIZE
                    &&& final(self).bytes() == old(self).bytes()
                },
            }),
    {
        if chunk.len() > RX_BUFFER_SIZE - self.data.len() {
            Err(FetchError::Oversize)
        } else {
            self.data.extend_from_slice(chunk);
            Ok(())
        }
    }

    /// The accumulated body.
    pub fn as_bytes(&self) -> (r: &Vec<u8>)
        ensures
            r@ == self.bytes(),
    {
        &self.data
    }
}

/// Relies on core::str::from_utf8: it returns `Ok` exactly on valid
/// UTF-8 input, and the returned text reads those bytes as characters.
#[verifier::external_body]
fn bytes_to_str<'a>(v: &'a [u8]) -> (r: Option<&'a str>)
    ensures
        r is Some <==> valid_utf8(v@),
        (r matches Some(s) ==> s@ == decode_utf8(v@)),
{
    core::str::from_utf8(v).ok()
}

/// Decode a complete response body as UTF-8 text; a body that is not
/// valid UTF-8 is fatal for the cycle.
pub fn decode_body(bytes: &[u8]) -> (r: Result<String, FetchError>)
    ensures
        r is Ok <==> valid_utf8(bytes@),
        (r matches Ok(s) ==> s@ == decode_utf8(bytes@)),
        (r matches Err(e) ==> e == FetchError::InvalidUtf8),
{
    match bytes_to_str(bytes) {
        Some(s) => Ok(s.to_owned()),
        None => Err(FetchError::InvalidUtf8),
    }
}

/// Accept one complete response body: it succeeds exactly when the
/// body fits the receive buffer and decodes as UTF-8 text, an
/// over-long body fails with `Oversize`, and a body within bounds that
/// is not UTF-8 fails with `InvalidUtf8`.
pub fn accept_body(body: &[u8]) -> (r: Result<String, FetchError>)
    ensures
        body@.len() > RX_BUFFER_SIZE ==> r == Err::<String, FetchError>(FetchError::Oversize),
        body@.len() <= RX_BUFFER_SIZE && !valid_utf8(body@) ==> r == Err::<String, FetchError>(
            FetchError::InvalidUtf8,
        ),
        body@.len() <= RX_BUFFER_SIZE && valid_utf8(body@) ==> r is Ok,
        (r matches Ok(s) ==> body@.len() <= RX_BUFFER_SIZE && valid_utf8(body@) && s@
            == decode_utf8(body@)),
{
    if body.len() > RX_BUFFER_SIZE {
        Err(FetchError::Oversize)
    } else {
        decode_body(body)
    }
}

} // verus!
