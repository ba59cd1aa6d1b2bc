//! Trusted access to the process clock and to the mutex-guarded slot that
//! the relative-to-previous timestamp mode keeps between renders. Everything
//! the library states about time goes through the three wrappers here.

use vstd::prelude::*;

use crate::options::time::Stamp;

verus! {

/// Declares std's mutex so a guarded slot can stand in a field; what the
/// mutex holds is opaque to verification.
#[verifier::external_type_specification]
#[verifier::external_body]
#[verifier::reject_recursive_types(T)]
pub struct ExMutex<T: ?Sized>(std::sync::Mutex<T>);

/// Relies on std::time::SystemTime::now and Duration: whole seconds and
/// sub-second nanoseconds since the Unix epoch. Duration::subsec_nanos is
/// documented to lie below one billion. Yields `None` when the clock reads
/// before the epoch.
#[verifier::external_body]
pub(crate) fn wall_clock_now() -> (r: Option<Stamp>)
    ensures
        r matches Some(s) ==> s.nanos < 1_000_000_000,
{
    match std::time::SystemTime::now().duration_since(std::time::UNIX_EPOCH) {
        Ok(d) => Some(Stamp { secs: d.as_secs(), nanos: d.subsec_nanos() }),
        Err(_) => None,
    }
}

/// Relies on std::sync::Mutex::new: a fresh slot, holding no timestamp yet.
#[verifier::external_body]
pub(crate) fn slot_new() -> (r: std::sync::Mutex<Option<Stamp>>) {
    std::sync::Mutex::new(None)
}

/// Relies on std::sync::Mutex::lock and Option::replace: stores `stamp` and
/// hands back what the slot held before, in one critical section, so that
/// concurrent renders read and replace the previous timestamp atomically.
/// A lock poisoned by a panicking thread is recovered, not propagated.
#[verifier::external_body]
pub(crate) fn slot_swap(slot: &std::sync::Mutex<Option<Stamp>>, stamp: Stamp) -> (r: Option<
    Stamp,
>) {
    match slot.lock() {
        Ok(mut guard) => guard.replace(stamp),
        Err(poisoned) => poisoned.into_inner().replace(stamp),
    }
}

} // verus!
