//! The wall clock, as the text that result pages show.

use vstd::prelude::*;

verus! {

/// `chrono::Local::now`, formatted with `%Y-%m-%d %H:%M:%S%.9f %z`: the
/// local date and time with nine fractional digits and the numeric offset
/// from UTC. The text depends on the clock and on the time zone of the
/// machine, so nothing is claimed of it. The crate takes the system clock
/// to stand at or after the start of 1970.
#[verifier::external_body]
pub(crate) fn current_time_string() -> (now: String) {
    chrono::Local::now().format("%Y-%m-%d %H:%M:%S%.9f %z").to_string()
}

} // verus!
