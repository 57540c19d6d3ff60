//! The debug-logging toggle, read from the configuration value.
//!
//! The log and warn printers themselves do terminal output and live with
//! the process wiring, gated by this predicate.

use vstd::prelude::*;

use crate::config::Config;

verus! {

/// Whether debug logging is enabled under `c`.
pub fn is_enabled(c: &Config) -> (r: bool)
    ensures
        r == c.debug,
{
    c.is_debug()
}

} // verus!
