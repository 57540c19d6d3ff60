//! Destination resolution: from the textual destination of an envelope to a
//! live registry entry.
//!
//! A destination in full `"<ip>:<port>"` form names one exact key; a bare
//! address matches any live connection from that address. The two forms are
//! disjoint, and a full key that is not registered is a miss — it never
//! falls back to an address scan.

use vstd::prelude::*;

use crate::addr::{spec_parse_ipv4, spec_parse_key, parse_ipv4, parse_key, ConnKey};
use crate::registry::{Registry, WriterHandle};

verus! {

/// Resolve a destination string against the registry.
///
/// Succeeds exactly when the destination is a registered key, or a bare
/// address some live connection was accepted from.
pub fn resolve_ip(dest: &str, reg: &Registry) -> (r: Option<(ConnKey, WriterHandle)>)
    requires
        reg.wf(),
    ensures
        match r {
            Some(p) => {
                &&& reg.contents().contains_key(p.0)
                &&& reg.contents()[p.0] == p.1
                &&& match spec_parse_key(dest@) {
                    Some(k) => p.0 == k,
                    None => spec_parse_ipv4(dest@) == Some(p.0.ip),
                }
            },
            None => {
                &&& match spec_parse_key(dest@) {
                    Some(k) => !reg.contents().contains_key(k),
                    None => true,
                }
                &&& match spec_parse_ipv4(dest@) {
                    Some(ip) => forall|k: ConnKey|
                        #[trigger] reg.contents().contains_key(k) ==> k.ip != ip,
                    None => true,
                }
            },
        },
{
    proof {
        crate::addr::lemma_key_not_ipv4(dest@);
    }
    match parse_key(dest) {
        Some(k) => match reg.lookup(k) {
            Some(w) => Some((k, w)),
            None => None,
        },
        None => match parse_ipv4(dest) {
            Some(ip) => reg.lookup_by_ip(ip),
            None => None,
        },
    }
}

/// The key of some live connection from the given bare address, if any.
pub fn match_ip_port(ip: &str, reg: &Registry) -> (r: Option<ConnKey>)
    requires
        reg.wf(),
    ensures
        match r {
            Some(k) => reg.contents().contains_key(k) && spec_parse_ipv4(ip@) == Some(k.ip),
            None => match spec_parse_ipv4(ip@) {
                Some(t) => forall|k: ConnKey|
                    #[trigger] reg.contents().contains_key(k) ==> k.ip != t,
                None => true,
            },
        },
{
    match parse_ipv4(ip) {
        Some(t) => match reg.lookup_by_ip(t) {
            Some(p) => Some(p.0),
            None => None,
        },
        None => None,
    }
}

} // verus!
