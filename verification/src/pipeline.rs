//! One ingestion cycle, after the transport has done its part: a
//! complete response body in, the decoded pickup events out, or the
//! first fatal condition of the cycle.

use vstd::prelude::*;
use vstd::utf8::{decode_utf8, valid_utf8};
use crate::calendar::{extract_events, spec_extract, ParseError, PickupEvent};
use crate::fetch::{accept_body, FetchError, RX_BUFFER_SIZE};

verus! {

/// A fatal condition of one ingestion cycle, distinguishable by kind:
/// fetch-side (capacity, text encoding, transport) or parse-side.
#[derive(Clone, Copy, Debug, PartialEq, Eq, Structural)]
pub enum IngestError {
    Fetch(FetchError),
    Parse(ParseError),
}

/// What one cycle yields from a complete response body: the body must
/// fit the receive buffer and decode as UTF-8, and the decoded text
/// must parse cleanly.
pub open spec fn spec_ingest(body: Seq<u8>) -> Result<Seq<PickupEvent>, IngestError> {
    if body.len() > RX_BUFFER_SIZE {
        Err(IngestError::Fetch(FetchError::Oversize))
    } else if !valid_utf8(body) {
        Err(IngestError::Fetch(FetchError::InvalidUtf8))
    } else {
        match spec_extract(decode_utf8(body)) {
            Ok(events) => Ok(events),
            Err(e) => Err(IngestError::Parse(e)),
        }
    }
}

/// What the process does when it cannot go on: the firmware idles
/// forever — it never unwinds and never restarts itself.
#[derive(Clone, Copy, Debug, PartialEq, Eq, Structural)]
pub enum HaltMode {
    IdleForever,
}

/// The fatal-condition policy of the device: a panic halts the process
/// in an idle loop. The loop itself belongs to the unverified shell;
/// this is the decision it runs on, and it admits no other outcome.
pub fn panic() -> (r: HaltMode)
    ensures
        r == HaltMode::IdleForever,
{
    HaltMode::IdleForever
}

/// Decode and parse one fetched response body into pickup events.
pub fn ingest_document(body: &[u8]) -> (r: Result<Vec<PickupEvent>, IngestError>)
    ensures
        (match r {
            Ok(events) => spec_ingest(body@) == Ok::<Seq<PickupEvent>, IngestError>(events@)
                && (forall|i: int| 0 <= i < events@.len() ==> (#[trigger] events@[i]).wf()),
            Err(e) => spec_ingest(body@) == Err::<Seq<PickupEvent>, IngestError>(e),
        }),
{
    let text = match accept_body(body) {
        Ok(s) => s,
        Err(e) => {
            return Err(IngestError::Fetch(e));
        },
    };
    match extract_events(text.as_str()) {
        Ok(events) => Ok(events),
        Err(e) => Err(IngestError::Parse(e)),
    }
}

} // verus!
