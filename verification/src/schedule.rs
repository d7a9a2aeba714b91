//! How often to ask the archive anything.
//!
//! Two mechanisms, and they are not a pair of alternatives:
//!
//! - **The interval poll is the mechanism.** It runs unconditionally, whether or
//!   not anything else is delivering. A safety net that only runs during an
//!   incident is exercised only during an incident.
//! - **Long polling is a hint.** It triggers a fetch and is never read for
//!   verdicts.
//!
//! Escalation exists only for the case where the hint is switched off.
//!
//! Spans of time are milliseconds here.

use vstd::prelude::*;

verus! {

/// The wait before asking again.
pub open spec fn wait(
    long_poll_enabled: bool,
    since_oldest: u64,
    min: u64,
    max: u64,
    escalate_after: u64,
) -> u64 {
    if long_poll_enabled {
        max
    } else if since_oldest < escalate_after {
        min
    } else {
        max
    }
}

/// How long to wait before asking again, in milliseconds.
///
/// `since_oldest` is how long the oldest outstanding submission has been
/// waiting: escalation is a property of the wait, not of the wall clock.
pub fn interval(
    long_poll_enabled: bool,
    since_oldest: u64,
    min: u64,
    max: u64,
    escalate_after: u64,
) -> (next: u64)
    ensures
        next == wait(long_poll_enabled, since_oldest, min, max, escalate_after),
{
    if long_poll_enabled {
        // Flat, and deliberately the slower of the two numbers. The trigger is
        // what makes a verdict prompt; this is what makes it certain.
        return max;
    }
    if since_oldest < escalate_after {
        min
    } else {
        max
    }
}

/// **With the accelerator on, the net is flat**, however long anything waited.
pub proof fn lemma_long_polling_makes_the_net_flat(
    waited: u64,
    min: u64,
    max: u64,
    escalate_after: u64,
)
    ensures
        wait(true, waited, min, max, escalate_after) == max,
{
}

/// **The net is never faster than the floor**, whatever it is configured to —
/// provided the ceiling is not below the floor, which configuration refuses.
pub proof fn lemma_never_faster_than_the_floor(
    long_poll_enabled: bool,
    waited: u64,
    min: u64,
    max: u64,
    escalate_after: u64,
)
    requires
        min <= max,
    ensures
        min <= wait(long_poll_enabled, waited, min, max, escalate_after) <= max,
{
}

/// **Without the accelerator the interval escalates once**, and a longer wait
/// never asks sooner than a shorter one did.
pub proof fn lemma_escalation_only_slows_down(
    shorter: u64,
    longer: u64,
    min: u64,
    max: u64,
    escalate_after: u64,
)
    requires
        shorter <= longer,
        min <= max,
    ensures
        wait(false, shorter, min, max, escalate_after) <= wait(
            false,
            longer,
            min,
            max,
            escalate_after,
        ),
{
}

/// **Without the accelerator the interval escalates exactly at the
/// threshold**: every wait shorter than it asks at the floor, and every wait
/// from it on at the ceiling.
pub proof fn lemma_escalation_happens_at_the_threshold(
    waited: u64,
    min: u64,
    max: u64,
    escalate_after: u64,
)
    ensures
        waited < escalate_after ==> wait(false, waited, min, max, escalate_after) == min,
        waited >= escalate_after ==> wait(false, waited, min, max, escalate_after) == max,
{
}

} // verus!
