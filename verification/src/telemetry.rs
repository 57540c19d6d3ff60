//! The egress telemetry queue: a bounded, best-effort pipe of events toward
//! an external sink.
//!
//! Submission never blocks and never errors toward the caller: a full queue
//! drops the event and counts the drop; a closed queue discards it. The
//! consumer side stamps a timestamp at dequeue time — the forwarded copy of
//! an envelope and its telemetry copy are two independent serializations.

use vstd::prelude::*;

use crate::framing::line_free;
use crate::jsonio::{json_parses, json_stamp, stamped_of};

verus! {

#[verifier::external_type_specification]
#[verifier::external_body]
#[verifier::reject_recursive_types(T)]
pub struct ExSender<T>(tokio::sync::mpsc::Sender<T>);

#[verifier::external_type_specification]
#[verifier::external_body]
#[verifier::reject_recursive_types(T)]
pub struct ExTrySendError<T>(tokio::sync::mpsc::error::TrySendError<T>);

#[verifier::external_type_specification]
#[verifier::external_body]
pub struct ExOffsetDateTime(time::OffsetDateTime);

/// What a relayed line led to, as reported toward the sink.
#[derive(Clone, Copy, PartialEq, Eq, Structural, Debug)]
pub enum TelemetryTag {
    ForwardSuccess,
    ForwardFailure,
    NoDestination,
}

/// One fire-and-forget record: a tag and the serialized envelope it is
/// about (the same rewritten text that was, or would have been, relayed).
pub struct TelemetryEvent {
    pub tag: TelemetryTag,
    pub body: String,
}

/// Outcome of one submission attempt, as seen by the caller.
#[derive(Clone, Copy, PartialEq, Eq, Structural, Debug)]
pub enum SubmitOutcome {
    Sent,
    Dropped,
    Closed,
}

enum QueueStatus {
    Sent,
    Full(TelemetryEvent),
    Closed(TelemetryEvent),
}

/// Relies on tokio's bounded `mpsc::Sender::try_send`: it never blocks, and
/// a `Full` or `Closed` error carries the submitted message back unchanged.
#[verifier::external_body]
fn try_send_event(s: &tokio::sync::mpsc::Sender<TelemetryEvent>, e: TelemetryEvent) -> (r:
    QueueStatus)
    ensures
        r matches QueueStatus::Full(x) ==> x == e,
        r matches QueueStatus::Closed(x) ==> x == e,
{
    match s.try_send(e) {
        Ok(()) => QueueStatus::Sent,
        Err(tokio::sync::mpsc::error::TrySendError::Full(x)) => QueueStatus::Full(x),
        Err(tokio::sync::mpsc::error::TrySendError::Closed(x)) => QueueStatus::Closed(x),
    }
}

/// The producer half of the telemetry queue, handed to every component that
/// emits events, with local counters of what became of the submissions.
pub struct TelemetrySender {
    chan: tokio::sync::mpsc::Sender<TelemetryEvent>,
    sent: u64,
    dropped: u64,
}

impl TelemetrySender {
    /// Events accepted by the queue so far.
    pub closed spec fn sent_count(self) -> u64 {
        self.sent
    }

    /// Events dropped on a full queue so far.
    pub closed spec fn dropped_count(self) -> u64 {
        self.dropped
    }

    pub fn new(chan: tokio::sync::mpsc::Sender<TelemetryEvent>) -> (r: TelemetrySender)
        ensures
            r.sent_count() == 0,
            r.dropped_count() == 0,
    {
        TelemetrySender { chan, sent: 0, dropped: 0 }
    }

    pub fn sent(&self) -> (r: u64)
        ensures
            r == self.sent_count(),
    {
        self.sent
    }

    pub fn dropped(&self) -> (r: u64)
        ensures
            r == self.dropped_count(),
    {
        self.dropped
    }

    /// Submit one event, without ever blocking or erroring toward the
    /// caller: a full queue drops the event (counted), a closed queue
    /// discards it. The outcome reports which of the three happened.
    pub fn submit(&mut self, e: TelemetryEvent) -> (r: SubmitOutcome)
        ensures
            r is Sent ==> final(self).sent_count() == (
                if old(self).sent_count() < u64::MAX { old(self).sent_count() + 1 } else { old(self).sent_count() as int }
            ) && final(self).dropped_count() == old(self).dropped_count(),
            r is Dropped ==> final(self).dropped_count() == (
                if old(self).dropped_count() < u64::MAX { old(self).dropped_count() + 1 } else { old(self).dropped_count() as int }
            ) && final(self).sent_count() == old(self).sent_count(),
            r is Closed ==> final(self).sent_count() == old(self).sent_count()
                && final(self).dropped_count() == old(self).dropped_count(),
    {
        match try_send_event(&self.chan, e) {
            QueueStatus::Sent => {
                if self.sent < u64::MAX {
                    self.sent = self.sent + 1;
                }
                SubmitOutcome::Sent
            },
            QueueStatus::Full(_) => {
                if self.dropped < u64::MAX {
                    self.dropped = self.dropped + 1;
                }
                SubmitOutcome::Dropped
            },
            QueueStatus::Closed(_) => SubmitOutcome::Closed,
        }
    }
}

/// Relies on time's `OffsetDateTime::now_utc`: the instant of the call;
/// nothing is assumed about the value.
#[verifier::external_body]
pub fn now_utc() -> (r: time::OffsetDateTime) {
    time::OffsetDateTime::now_utc()
}

/// Relies on `OffsetDateTime::format` with the RFC 3339 description: the
/// instant rendered as standard timestamp text, `None` if the instant
/// cannot be represented in that format.
#[verifier::external_body]
fn format_rfc3339(t: time::OffsetDateTime) -> (r: Option<String>) {
    match t.format(&time::format_description::well_known::Rfc3339) {
        Ok(s) => Some(s),
        Err(_) => None,
    }
}

/// Stamp the given timestamp text into an envelope body: exactly the
/// serialization the sink receives for that body and stamp. A body that is
/// not a well-formed envelope is handed on unchanged.
pub fn stamp_body(body: String, ts: &str) -> (r: String)
    ensures
        json_parses(body@) ==> r@ == stamped_of(body@, ts@) && line_free(r@),
        !json_parses(body@) ==> r@ == body@,
{
    match json_stamp(body.as_str(), ts) {
        Some(out) => out,
        None => body,
    }
}

/// Serialize one dequeued event for the sink: its envelope with a
/// `timestamp` member stamped now, at dequeue time, returned beside the
/// stamp itself. The forwarded copy of the envelope is never touched by
/// this — the two are independent serializations. What the stamping does
/// for any given stamp is [`stamp_body`]'s contract; only the clock read
/// and its formatting stand outside it, and a stamp that could not be
/// formatted leaves the body unchanged.
pub fn sink_body(e: TelemetryEvent) -> (r: (String, Option<String>))
    ensures
        r.1 matches Some(ts) ==> {
            &&& json_parses(e.body@) ==> r.0@ == stamped_of(e.body@, ts@) && line_free(r.0@)
            &&& !json_parses(e.body@) ==> r.0@ == e.body@
        },
        r.1 is None ==> r.0@ == e.body@,
{
    let t = now_utc();
    match format_rfc3339(t) {
        Some(ts) => {
            let out = stamp_body(e.body, ts.as_str());
            (out, Some(ts))
        },
        None => (e.body, None),
    }
}

} // verus!
