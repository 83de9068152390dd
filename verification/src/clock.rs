//! Wall-clock instants, carried opaquely.
//!
//! The dispatcher stores the engine's requested wake-up deadline and the
//! admission time of each closing stream as `std::time::Instant` values.
//! It never inspects them beyond one ordering test; the values come from
//! the embedding code, which owns the clock and the reactor.

use vstd::prelude::*;
use std::time::Instant;

verus! {

#[verifier::external_type_specification]
#[verifier::external_body]
pub struct ExInstant(Instant);

/// Relies on `std::time::Instant`'s `Ord`: instants are ordered points in
/// time, so this reports whether `deadline` lies at or before `now`. The
/// caller treats either answer as possible; nothing else is assumed of it.
#[verifier::external_body]
pub fn instant_elapsed(deadline: &Instant, now: &Instant) -> bool {
    *deadline <= *now
}

} // verus!
