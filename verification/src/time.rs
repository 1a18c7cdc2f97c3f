use vstd::prelude::*;

verus! {

/// Relies on std::time::SystemTime::now and SystemTime::duration_since: a
/// wall-clock timestamp in nanoseconds since the Unix epoch (zero if the
/// clock reads earlier than the epoch). Nothing is promised of the value: it
/// depends on the clock at the moment of the call, and the clock may step.
#[verifier::external_body]
pub(crate) fn now_nanos() -> u64 {
    match std::time::SystemTime::now().duration_since(std::time::UNIX_EPOCH) {
        Ok(d) => d.as_nanos() as u64,
        Err(_) => 0,
    }
}

} // verus!
