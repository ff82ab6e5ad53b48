//! The wall clock.
use vstd::prelude::*;

verus! {

/// Relies on std's `SystemTime::now` and `SystemTime::duration_since`: how
/// far the current instant lies from the Unix epoch, as whether it lies at
/// or after the epoch, whole seconds, and the milliseconds beyond them.
/// Nothing is promised of the value but that the milliseconds are below a
/// second, as `Duration::subsec_millis` documents. chrono's `Utc::now` is not
/// used because it panics on a clock set before 1970, and chrono's
/// conversion from `SystemTime` panics outside chrono's range.
#[verifier::external_body]
fn epoch_offset() -> (r: (bool, u64, u32))
    ensures
        r.2 < 1000,
{
    match std::time::SystemTime::now().duration_since(std::time::UNIX_EPOCH) {
        Ok(d) => (true, d.as_secs(), d.subsec_millis()),
        Err(e) => (false, e.duration().as_secs(), e.duration().subsec_millis()),
    }
}

/// The current instant in milliseconds since the Unix epoch, negative before
/// it. Nothing is promised of its value.
pub(crate) fn now_millis() -> (r: i64) {
    let (after, secs, millis) = epoch_offset();
    let limit: u64 = (i64::MAX as u64 - 999) / 1000;
    let m: i64 = if secs > limit {
        i64::MAX
    } else {
        (secs * 1000 + millis as u64) as i64
    };
    if after { m } else { -m }
}

} // verus!
