//! The 15-minute market windows that Polymarket's up/down contracts trade in.
use vstd::prelude::*;

verus! {

/// Length of a market window in seconds.
pub const WINDOW_SECS: u64 = 900;

/// Start (UNIX seconds) of the window that holds the second `secs`.
pub open spec fn window_start_spec(secs: int) -> int {
    (secs / 900) * 900
}

/// Start (UNIX seconds) of the window that holds the microsecond `us`.
pub open spec fn window_of_micros(us: int) -> int {
    window_start_spec(us / 1_000_000)
}

/// Start (UNIX seconds) of the window that holds the second `secs`.
pub fn window_start(secs: u64) -> (r: u64)
    ensures
        r as int == window_start_spec(secs as int),
        r <= secs,
{
    (secs / WINDOW_SECS) * WINDOW_SECS
}

/// Start (UNIX seconds) of the window that holds the microsecond `us`.
pub fn window_start_of_micros(us: u64) -> (r: u64)
    ensures
        r as int == window_of_micros(us as int),
{
    window_start(us / 1_000_000)
}

} // verus!
