//! One connection session: its lifecycle against the registry, and the
//! decision taken for each inbound line.
//!
//! A session moves `Accepted -> Registered -> Reading -> Closing -> Removed`.
//! While `Reading`, each newline-delimited line is decoded and turned into a
//! [`LineAction`]: what to write where, and which telemetry event to emit.
//! The caller performs the socket writes and hands the write result back to
//! [`forward_event`] for the success- or failure-tagged event.

use vstd::prelude::*;

use crate::addr::{format_ipv4, ipv4_text, spec_parse_ipv4, spec_parse_key, ConnKey};
use crate::framing::{is_line_free, line_free};
use crate::jsonio::{json_dest, json_dest_of, json_parses, json_rewrite, rewritten_of};
use crate::lookup::resolve_ip;
use crate::registry::{Registry, WriterHandle};
use crate::telemetry::{TelemetryEvent, TelemetryTag};

verus! {

/// Upper bound on one line of input. A longer line is treated as a decode
/// error and never parsed, closing the unbounded-read resource risk.
pub const MAX_LINE_LEN: usize = 65536;

/// What to do about one inbound line.
///
/// Each variant carries at most one telemetry event, so a line leads to
/// exactly one event unless it is dropped as malformed or unroutable.
pub enum LineAction {
    /// The line is over length or not JSON: log it and keep reading. Never
    /// closes the connection.
    MalformedLine,
    /// The envelope names no destination: drop it silently.
    NotRoutable,
    /// The envelope's destination `dest` resolved: forward `line` — the
    /// envelope re-serialized after the `source` rewrite — through the
    /// destination's registered writer, then report the write result
    /// through [`forward_event`].
    Forward { dest: String, target: ConnKey, writer: WriterHandle, line: String },
    /// No live connection owns `dest`: send `reply` back to the sender
    /// (best effort) and emit the event, tagged "no destination".
    NoRoute { dest: String, reply: String, event: TelemetryEvent },
}

/// The text of the best-effort notification sent back when a destination
/// is not connected.
pub open spec fn no_route_reply_text(dest: Seq<char>) -> Seq<char> {
    "Destination "@ + dest + " not connected"@
}

/// The notification actually sent for `dest`: it names the destination,
/// unless the destination text itself embeds a line terminator — echoing
/// that would split the framed notification into two wire lines.
pub open spec fn no_route_reply_of(dest: Seq<char>) -> Seq<char> {
    if line_free(dest) {
        no_route_reply_text(dest)
    } else {
        "Destination not connected"@
    }
}

/// Build the "destination not connected" notification for `dest`, always
/// one line.
pub fn no_route_reply(dest: &str) -> (r: String)
    ensures
        r@ == no_route_reply_of(dest@),
        line_free(r@),
{
    proof {
        reveal_strlit("Destination ");
        reveal_strlit(" not connected");
        reveal_strlit("Destination not connected");
    }
    if is_line_free(dest) {
        let mut r = String::from_str("Destination ");
        r.append(dest);
        r.append(" not connected");
        proof {
            assert(r@ =~= no_route_reply_text(dest@));
            assert forall|i: int| 0 <= i < r@.len() implies #[trigger] r@[i] != '\n' by {
                let pre = "Destination "@;
                let post = " not connected"@;
                if i < pre.len() {
                    assert(r@[i] == pre[i]);
                } else if i < pre.len() + dest@.len() {
                    assert(r@[i] == dest@[i - pre.len()]);
                } else {
                    assert(r@[i] == post[i - pre.len() - dest@.len()]);
                }
            }
        }
        r
    } else {
        let r = String::from_str("Destination not connected");
        proof {
            assert forall|i: int| 0 <= i < r@.len() implies #[trigger] r@[i] != '\n' by {}
        }
        r
    }
}

/// Decide what one inbound line leads to, for the session registered under
/// `self_key`.
///
/// The envelope's `source` member is overwritten with the sender's own
/// address before anything else — a client may not claim another identity
/// — and the forwarded text is exactly that rewritten serialization. The
/// action is forced: malformed iff over length or unparseable, dropped iff
/// the envelope names no destination, and otherwise forwarded or refused
/// exactly as [`resolve_ip`] decides for that destination.
pub fn handle_line(line: &str, self_key: ConnKey, reg: &Registry) -> (r: LineAction)
    requires
        reg.wf(),
    ensures
        (r is MalformedLine) == (line@.len() > MAX_LINE_LEN || !json_parses(line@)),
        !(r is MalformedLine) ==> ((r is NotRoutable) <==> json_dest_of(line@) is None),
        r matches LineAction::Forward { dest, target, writer, line: out } ==> {
            &&& json_dest_of(line@) == Some(dest@)
            &&& out@ == rewritten_of(line@, ipv4_text(self_key.ip))
            &&& line_free(out@)
            &&& json_parses(out@)
            &&& reg.contents().contains_key(target)
            &&& reg.contents()[target] == writer
            &&& match spec_parse_key(dest@) {
                Some(k) => target == k,
                None => spec_parse_ipv4(dest@) == Some(target.ip),
            }
        },
        r matches LineAction::NoRoute { dest, reply, event } ==> {
            &&& json_dest_of(line@) == Some(dest@)
            &&& event.tag is NoDestination
            &&& event.body@ == rewritten_of(line@, ipv4_text(self_key.ip))
            &&& json_parses(event.body@)
            &&& reply@ == no_route_reply_of(dest@)
            &&& line_free(reply@)
            &&& match spec_parse_key(dest@) {
                Some(k) => !reg.contents().contains_key(k),
                None => true,
            }
            &&& match spec_parse_ipv4(dest@) {
                Some(ip) => forall|k: ConnKey|
                    #[trigger] reg.contents().contains_key(k) ==> k.ip != ip,
                None => true,
            }
        },
{
    if line.unicode_len() > MAX_LINE_LEN {
        return LineAction::MalformedLine;
    }
    let self_ip_text = format_ipv4(self_key.ip);
    let out = match json_rewrite(line, self_ip_text.as_str()) {
        Some(t) => t,
        None => {
            return LineAction::MalformedLine;
        },
    };
    let dest = match json_dest(line) {
        Some(d) => d,
        None => {
            return LineAction::NotRoutable;
        },
    };
    match resolve_ip(dest.as_str(), reg) {
        Some((target, writer)) => LineAction::Forward { dest, target, writer, line: out },
        None => {
            let reply = no_route_reply(dest.as_str());
            LineAction::NoRoute {
                dest,
                reply,
                event: TelemetryEvent { tag: TelemetryTag::NoDestination, body: out },
            }
        },
    }
}

/// Tag the telemetry event for a finished forward from its write result:
/// a failed write means the peer is gone, not that the sender's own
/// session ends.
pub fn forward_event(write_ok: bool, body: String) -> (r: TelemetryEvent)
    ensures
        r.tag == (if write_ok {
            TelemetryTag::ForwardSuccess
        } else {
            TelemetryTag::ForwardFailure
        }),
        r.body == body,
{
    TelemetryEvent {
        tag: if write_ok {
            TelemetryTag::ForwardSuccess
        } else {
            TelemetryTag::ForwardFailure
        },
        body,
    }
}

/// Lifecycle states of one connection session.
#[derive(Clone, Copy, PartialEq, Eq, Structural, Debug)]
pub enum SessionState {
    Accepted,
    Registered,
    Reading,
    Closing,
    Removed,
}

/// One accepted connection's standing against the registry.
pub struct Session {
    pub key: ConnKey,
    pub writer: WriterHandle,
    pub state: SessionState,
}

impl Session {
    /// A freshly accepted connection, keyed by its observed socket address,
    /// its write half wrapped under the given writer identity.
    pub fn accept(key: ConnKey, writer: WriterHandle) -> (s: Session)
        ensures
            s.key == key,
            s.writer == writer,
            s.state is Accepted,
    {
        Session { key, writer, state: SessionState::Accepted }
    }

    /// Put this session's writer into the registry, replacing whatever the
    /// key pointed at before.
    pub fn register(&mut self, reg: &mut Registry)
        requires
            old(self).state is Accepted,
            old(reg).wf(),
        ensures
            final(self).state is Registered,
            final(self).key == old(self).key,
            final(self).writer == old(self).writer,
            final(reg).wf(),
            final(reg).contents() == old(reg).contents().insert(old(self).key, old(self).writer),
    {
        reg.register(self.key, self.writer);
        self.state = SessionState::Registered;
    }

    /// Enter the read loop.
    pub fn start_reading(&mut self)
        requires
            old(self).state is Registered,
        ensures
            final(self).state is Reading,
            final(self).key == old(self).key,
            final(self).writer == old(self).writer,
    {
        self.state = SessionState::Reading;
    }

    /// Decide what one inbound line leads to. Reading never changes the
    /// session itself: malformed lines are survived, and a failed forward
    /// terminates the target's entry, not this session.
    pub fn on_line(&self, line: &str, reg: &Registry) -> (r: LineAction)
        requires
            self.state is Reading,
            reg.wf(),
        ensures
            (r is MalformedLine) == (line@.len() > MAX_LINE_LEN || !json_parses(line@)),
            !(r is MalformedLine) ==> ((r is NotRoutable) <==> json_dest_of(line@) is None),
            r matches LineAction::Forward { dest, target, writer, line: out } ==> {
                &&& json_dest_of(line@) == Some(dest@)
                &&& out@ == rewritten_of(line@, ipv4_text(self.key.ip))
                &&& line_free(out@)
                &&& json_parses(out@)
                &&& reg.contents().contains_key(target)
                &&& reg.contents()[target] == writer
                &&& match spec_parse_key(dest@) {
                    Some(k) => target == k,
                    None => spec_parse_ipv4(dest@) == Some(target.ip),
                }
            },
            r matches LineAction::NoRoute { dest, reply, event } ==> {
                &&& json_dest_of(line@) == Some(dest@)
                &&& event.tag is NoDestination
                &&& event.body@ == rewritten_of(line@, ipv4_text(self.key.ip))
                &&& json_parses(event.body@)
                &&& reply@ == no_route_reply_of(dest@)
                &&& line_free(reply@)
                &&& match spec_parse_key(dest@) {
                    Some(k) => !reg.contents().contains_key(k),
                    None => true,
                }
                &&& match spec_parse_ipv4(dest@) {
                    Some(ip) => forall|k: ConnKey|
                        #[trigger] reg.contents().contains_key(k) ==> k.ip != ip,
                    None => true,
                }
            },
    {
        handle_line(line, self.key, reg)
    }

    /// The read loop ended: end of stream or a read error.
    pub fn close(&mut self)
        requires
            old(self).state is Reading,
        ensures
            final(self).state is Closing,
            final(self).key == old(self).key,
            final(self).writer == old(self).writer,
    {
        self.state = SessionState::Closing;
    }

    /// Leave the registry, but only if it still points this session's key
    /// at this session's own writer: cleanup after a reconnect must not
    /// evict the newer session's entry. Idempotent — a key already gone is
    /// a no-op, not an error.
    pub fn deregister(&mut self, reg: &mut Registry) -> (r: bool)
        requires
            old(self).state is Closing,
            old(reg).wf(),
        ensures
            final(self).state is Removed,
            final(self).key == old(self).key,
            final(self).writer == old(self).writer,
            final(reg).wf(),
            r == (old(reg).contents().contains_key(old(self).key)
                && old(reg).contents()[old(self).key] == old(self).writer),
            r ==> final(reg).contents() == old(reg).contents().remove(old(self).key),
            !r ==> final(reg).contents() == old(reg).contents(),
    {
        let r = reg.remove_if(self.key, self.writer);
        self.state = SessionState::Removed;
        r
    }
}

} // verus!
