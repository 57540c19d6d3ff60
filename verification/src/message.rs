//! The envelope record: the fields a client message can carry, as plain
//! values. The relay itself treats everything but `source` and
//! `destination` as opaque payload; this record names the full shape for
//! callers that build or inspect messages.

use vstd::prelude::*;

verus! {

/// One client message, field by field. The timestamp is milliseconds since
/// an arbitrary process-local origin.
#[derive(Debug)]
pub struct JSONMessage {
    pub source: String,
    pub destination: String,
    pub command: String,
    pub timestamp: u64,
    pub machine_type: String,
}

} // verus!
