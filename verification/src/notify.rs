//! The debounce rule of the voice-join announcement: a member's arrival is
//! announced at most once per reset window.

use vstd::prelude::*;

verus! {

/// Hours after an announcement during which the member is not announced again.
pub const NUBBY_ANNOUNCE_RESET_HOURS: i64 = 12;

/// Whether a new announcement is due: the last one lies more than the reset
/// window in the past. Times are seconds since a fixed epoch.
pub fn should_announce(last_announced_secs: i64, now_secs: i64) -> (r: bool)
    requires
        last_announced_secs + NUBBY_ANNOUNCE_RESET_HOURS * 3600 <= i64::MAX,
    ensures
        r == (last_announced_secs + NUBBY_ANNOUNCE_RESET_HOURS * 3600 < now_secs),
{
    last_announced_secs + NUBBY_ANNOUNCE_RESET_HOURS * 3600 < now_secs
}

} // verus!
