use vstd::prelude::*;

verus! {

/// Relies on `std::time::SystemTime::now`: the system clock, read as whole
/// seconds since the Unix epoch, or 0 if the clock reads before it. Of the
/// clock's value nothing can be promised.
#[verifier::external_body]
pub(crate) fn current_unix_seconds() -> u64 {
    match std::time::SystemTime::now().duration_since(std::time::UNIX_EPOCH) {
        Ok(elapsed) => elapsed.as_secs(),
        Err(_) => 0,
    }
}

} // verus!
