//! The clock and the idle-timeout rule.

use vstd::prelude::*;

verus! {

/// How long a session may see no reply before it is evicted, in seconds.
pub const TIMEOUT_SECOND: u64 = 180;

/// A session last active at `time` has been idle for `timeout` seconds or
/// more at `now`.
pub open spec fn expired(now: int, time: int, timeout: int) -> bool {
    now >= time + timeout
}

/// Reads the wall clock through `chrono::Local::now` and returns its
/// `timestamp`: whole seconds since the Unix epoch.
///
/// Nothing is believed of the value: two calls may return anything.
#[verifier::external_body]
pub fn cur_timestamp() -> (now: i64) {
    chrono::Local::now().timestamp()
}

/// Tells whether `time` lies `timeout` seconds or more before `now`. The sum
/// is taken in the integers: it does not wrap.
pub fn is_timeout_at(now: i64, time: i64, timeout: u64) -> (b: bool)
    ensures
        b == expired(now as int, time as int, timeout as int),
{
    let deadline: i128 = time as i128 + timeout as i128;
    now as i128 >= deadline
}

/// Tells whether `time` lies `timeout` seconds or more in the past. The
/// answer is that of [`is_timeout_at`] for the second that the clock showed.
pub fn is_timeout(time: i64, timeout: u64) -> (b: bool)
    ensures
        exists|now: i64| b == #[trigger] expired(now as int, time as int, timeout as int),
{
    let now = cur_timestamp();
    is_timeout_at(now, time, timeout)
}

} // verus!
