//! Envelope (de)serialization through the `json` crate.
//!
//! Envelopes are opaque JSON documents; what the relay does with them are
//! three deterministic text-to-text operations: rewrite the `source` member
//! and re-serialize, read the `destination` member, and stamp a `timestamp`
//! member into the telemetry copy. Each operation is a pure function of its
//! text arguments, named below, and tied to its call by a trusted wrapper;
//! everything that decides on the results is verified code elsewhere.

use vstd::prelude::*;

use crate::framing::line_free;

verus! {

/// Whether `json::parse` accepts `s`. The parser is a pure function of the
/// input text, so acceptance is too.
pub uninterp spec fn json_parses(s: Seq<char>) -> bool;

/// The text of the `destination` member of the document parsed from `s`:
/// `None` when `s` is not accepted, or the member is absent or not a
/// string.
pub uninterp spec fn json_dest_of(s: Seq<char>) -> Option<Seq<char>>;

/// The document parsed from `s`, its `source` member set to `src`, dumped
/// compactly. Meaningful when `json_parses(s)`.
pub uninterp spec fn rewritten_of(s: Seq<char>, src: Seq<char>) -> Seq<char>;

/// The document parsed from `s`, its `timestamp` member set to `ts`,
/// dumped compactly. Meaningful when `json_parses(s)`.
pub uninterp spec fn stamped_of(s: Seq<char>, ts: Seq<char>) -> Seq<char>;

/// Relies on `json::parse`, `JsonValue`'s `IndexMut<&str>` and
/// `JsonValue::dump`: parsing accepts exactly the texts the parser accepts,
/// deterministically in the input; on acceptance the result is the
/// rewritten dump. The dump holds no raw line terminator (the generator
/// escapes every control character), and is itself accepted by the parser
/// (the generator emits well-formed JSON, and the document already sat
/// within the parser's nesting cap, which one more object member does not
/// deepen).
#[verifier::external_body]
pub fn json_rewrite(line: &str, src: &str) -> (r: Option<String>)
    ensures
        r.is_some() == json_parses(line@),
        r matches Some(t) ==> {
            &&& t@ == rewritten_of(line@, src@)
            &&& line_free(t@)
            &&& json_parses(t@)
        },
{
    match json::parse(line) {
        Ok(mut v) => {
            v["source"] = json::JsonValue::String(src.to_string());
            Some(v.dump())
        },
        Err(_) => None,
    }
}

/// Relies on `json::parse`, `JsonValue`'s `Index<&str>` and
/// `JsonValue::as_str`: the `destination` member's text, a function of the
/// line alone; `None` when the line is not accepted or the member is
/// absent or not a string.
#[verifier::external_body]
pub fn json_dest(line: &str) -> (r: Option<String>)
    ensures
        match r {
            Some(d) => json_dest_of(line@) == Some(d@),
            None => json_dest_of(line@) is None,
        },
{
    match json::parse(line) {
        Ok(v) => match v["destination"].as_str() {
            Some(d) => Some(d.to_string()),
            None => None,
        },
        Err(_) => None,
    }
}

/// Relies on `json::parse`, `JsonValue`'s `IndexMut<&str>` and
/// `JsonValue::dump`: the body with a `timestamp` member set to `ts`,
/// dumped compactly; `None` exactly when `body` is not accepted. The dump
/// holds no raw line terminator.
#[verifier::external_body]
pub fn json_stamp(body: &str, ts: &str) -> (r: Option<String>)
    ensures
        r.is_some() == json_parses(body@),
        r matches Some(t) ==> t@ == stamped_of(body@, ts@) && line_free(t@),
{
    match json::parse(body) {
        Ok(mut v) => {
            v["timestamp"] = json::JsonValue::String(ts.to_string());
            Some(v.dump())
        },
        Err(_) => None,
    }
}

} // verus!
