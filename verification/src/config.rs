//! Runtime configuration: the telemetry sink URL and the debug-logging
//! toggle.
//!
//! The configuration is an explicit value, constructed once at startup from
//! the environment and passed to every component that needs it.

use vstd::prelude::*;

verus! {

/// The external collaborators' settings, as plain values.
#[derive(Debug, Clone)]
pub struct Config {
    pub api_url: String,
    pub debug: bool,
}

impl Config {
    pub fn new(api_url: String, debug: bool) -> (c: Config)
        ensures
            c.api_url == api_url,
            c.debug == debug,
    {
        Config { api_url, debug }
    }

    /// The telemetry sink URL.
    pub fn api_url(&self) -> (r: &str)
        ensures
            r@ == self.api_url@,
    {
        self.api_url.as_str()
    }

    /// Whether debug logging is switched on.
    pub fn is_debug(&self) -> (r: bool)
        ensures
            r == self.debug,
    {
        self.debug
    }
}

/// Compare two strings by contents.
fn str_eq(a: &str, b: &str) -> (r: bool)
    ensures
        r == (a@ == b@),
{
    let n = a.unicode_len();
    let m = b.unicode_len();
    if n != m {
        return false;
    }
    let mut i: usize = 0;
    while i < n
        invariant
            n == a@.len(),
            n == b@.len(),
            i <= n,
            forall|j: int| 0 <= j < i ==> a@[j] == b@[j],
        decreases n - i,
    {
        if a.get_char(i) != b.get_char(i) {
            return false;
        }
        i = i + 1;
    }
    proof {
        assert(a@ =~= b@);
    }
    true
}

/// The meaning of the debug toggle's environment text: only `"true"` and
/// `"1"` switch debug logging on.
pub fn parse_debug_flag(val: &str) -> (r: bool)
    ensures
        r == (val@ == "true"@ || val@ == "1"@),
{
    str_eq(val, "true") || str_eq(val, "1")
}

} // verus!
