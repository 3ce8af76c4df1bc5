use vstd::prelude::*;

verus! {

/// Relies on std::time::SystemTime::now: milliseconds since the Unix epoch,
/// or 0 when the clock reads earlier than the epoch.
#[verifier::external_body]
pub fn now() -> u128 {
    match std::time::SystemTime::now().duration_since(std::time::UNIX_EPOCH) {
        Ok(d) => d.as_millis(),
        Err(_) => 0,
    }
}

/// Reads the clock and decides whether a new poll cycle is due: true exactly
/// when more than `poll_rate` milliseconds have passed since `last_poll` at
/// the returned time.
pub fn poll_due(last_poll: u128, poll_rate: u64) -> (r: (bool, u128))
    ensures
        r.0 == (last_poll + poll_rate < r.1),
{
    let t = now();
    let due = t > last_poll && t - last_poll > poll_rate as u128;
    (due, t)
}

} // verus!
