//! Keeping a job while somebody else's judge thinks about it.
//!
//! A job left on a lease that is never extended is reclaimed by the Server,
//! handed to the next Runner, and **submitted to the archive a second time**.
//! That is the failure this module exists for.
//!
//! The policy is deliberately dull: **renew every held job on every poll cycle,
//! unconditionally.** Renewal never shortens a lease, so there is no deadline
//! arithmetic to get wrong, and no second opinion about when a lease expires.

use vstd::prelude::*;

verus! {

/// What the Server's answer to a renewal means for the job.
#[derive(Debug, Clone, Copy, PartialEq, Eq, Structural)]
pub enum Standing {
    /// Renewed. The authoritative expiry came back in the answer.
    Held,
    /// Somebody else holds this job now — the lease was reaped, or it was never
    /// ours. **Nothing may be reported for it.**
    Lost,
    /// The Server could not be reached or answered a server error. Says nothing
    /// about whether we still hold the job.
    Unreachable,
}

impl Standing {
    /// Read from the protocol's own classifier — whether the Server said the
    /// lease is lost — rather than from status codes, so a contract change
    /// lands in one place.
    pub fn of(lease_lost: bool) -> (s: Standing)
        ensures
            s == (if lease_lost {
                Standing::Lost
            } else {
                Standing::Unreachable
            }),
    {
        if lease_lost {
            Standing::Lost
        } else {
            Standing::Unreachable
        }
    }
}

/// What to do about a held submission after a renewal attempt.
#[derive(Debug, Clone, Copy, PartialEq, Eq, Structural)]
pub enum Action {
    /// Carry on waiting for the archive.
    KeepWaiting,
    /// Forget it **without reporting anything**. The job belongs to another
    /// Runner now, and pushing a result would overwrite a newer attempt with an
    /// older answer.
    DropSilently,
    /// Stop holding it and say why. The Server requeues it.
    GiveUp,
}

/// The decision, given what the Server said and how long it has been saying it.
pub open spec fn decision(standing: Standing, consecutive: u32, ceiling: u32) -> Action {
    match standing {
        Standing::Held => Action::KeepWaiting,
        Standing::Lost => Action::DropSilently,
        Standing::Unreachable => if consecutive >= ceiling {
            Action::GiveUp
        } else {
            Action::KeepWaiting
        },
    }
}

/// The decision, given what the Server said and how long it has been saying it.
///
/// `consecutive` counts renewal attempts that could not reach the Server,
/// including this one. The ceiling is expressed in **attempts rather than
/// seconds** because the poll cycle is what drives them: it is the same clock
/// the waiting runs on, so the two cannot drift apart.
pub fn act(standing: Standing, consecutive: u32, ceiling: u32) -> (a: Action)
    ensures
        a == decision(standing, consecutive, ceiling),
{
    match standing {
        Standing::Held => Action::KeepWaiting,
        Standing::Lost => Action::DropSilently,
        Standing::Unreachable => if consecutive >= ceiling {
            Action::GiveUp
        } else {
            Action::KeepWaiting
        },
    }
}

/// How many renewal cycles fit in a lease, less one, and never fewer than one.
pub open spec fn cycles_before_risk(lease_seconds: int, cycle_seconds: int) -> int {
    let cycle = if cycle_seconds < 1 {
        1
    } else {
        cycle_seconds
    };
    let fit = lease_seconds / cycle;
    if fit - 1 < 1 {
        1
    } else {
        fit - 1
    }
}

/// How many failed renewals a lease can absorb before it is genuinely at risk.
///
/// Derived rather than chosen: with a lease of `lease_seconds` and a cycle of at
/// most `cycle_seconds`, this is how many cycles fit — minus one, so the ceiling
/// is reached while the lease is still valid rather than after it has gone.
pub fn ceiling(lease_seconds: u32, cycle_seconds: u64) -> (c: u32)
    ensures
        c as int == cycles_before_risk(lease_seconds as int, cycle_seconds as int),
        c >= 1,
{
    let cycle = if cycle_seconds < 1 {
        1
    } else {
        cycle_seconds
    };
    let fit = (lease_seconds as u64) / cycle;
    assert(fit <= lease_seconds) by (nonlinear_arith)
        requires
            fit == (lease_seconds as u64) / cycle,
            cycle >= 1,
    ;
    let less = if fit < 1 {
        0
    } else {
        fit - 1
    };
    if less < 1 {
        1
    } else {
        less as u32
    }
}

/// **A lost lease is dropped without reporting, however long renewals had been
/// failing before.** The rule that keeps two Runners from overwriting one
/// another.
pub proof fn lemma_a_lost_lease_is_never_reported(consecutive: u32, ceiling: u32)
    ensures
        decision(Standing::Lost, consecutive, ceiling) == Action::DropSilently,
{
}

/// **An unreachable Server is waited out, then given up on**: waiting is what
/// happens below the ceiling, giving up is what happens at it.
pub proof fn lemma_unreachable_waits_then_gives_up(consecutive: u32, ceiling: u32)
    ensures
        decision(Standing::Unreachable, consecutive, ceiling) == (if consecutive < ceiling {
            Action::KeepWaiting
        } else {
            Action::GiveUp
        }),
        decision(Standing::Unreachable, consecutive, ceiling) != Action::DropSilently,
{
}

/// **The ceiling is reached while the lease is still valid, not after**: when
/// at least two cycles fit in the lease, that many cycles end before it does.
pub proof fn lemma_the_ceiling_leaves_the_lease_alive(lease_seconds: u32, cycle_seconds: u64)
    requires
        cycle_seconds >= 1,
        lease_seconds as int / cycle_seconds as int >= 2,
    ensures
        cycles_before_risk(lease_seconds as int, cycle_seconds as int) * cycle_seconds
            < lease_seconds,
{
    let c = cycle_seconds as int;
    let l = lease_seconds as int;
    let fit = l / c;
    assert(fit * c <= l) by (nonlinear_arith)
        requires
            fit == l / c,
            c >= 1,
            l >= 0,
    ;
    assert((fit - 1) * c < l) by (nonlinear_arith)
        requires
            fit * c <= l,
            c >= 1,
    ;
}

/// **A shorter cycle absorbs at least as many failures.**
pub proof fn lemma_a_shorter_cycle_absorbs_more(lease_seconds: u32, shorter: u64, longer: u64)
    requires
        1 <= shorter <= longer,
    ensures
        cycles_before_risk(lease_seconds as int, shorter as int) >= cycles_before_risk(
            lease_seconds as int,
            longer as int,
        ),
{
    let l = lease_seconds as int;
    let s = shorter as int;
    let g = longer as int;
    assert(l / s >= l / g) by (nonlinear_arith)
        requires
            1 <= s <= g,
            l >= 0,
    ;
}

/// **A renewed lease just carries on**, however long renewals had been
/// failing before.
pub proof fn lemma_a_renewed_lease_carries_on(consecutive: u32, ceiling: u32)
    ensures
        decision(Standing::Held, consecutive, ceiling) == Action::KeepWaiting,
{
}

/// **The ceiling is as high as it safely can be**: when at least two cycles
/// fit in the lease, one more failed renewal than the ceiling allows would
/// already have outlived it, so the ceiling is exactly the cycles that fit,
/// less one.
pub proof fn lemma_the_ceiling_is_as_high_as_is_safe(lease_seconds: u32, cycle_seconds: u64)
    requires
        cycle_seconds >= 1,
        lease_seconds as int / cycle_seconds as int >= 2,
    ensures
        cycles_before_risk(lease_seconds as int, cycle_seconds as int) == lease_seconds as int
            / cycle_seconds as int - 1,
        (cycles_before_risk(lease_seconds as int, cycle_seconds as int) + 2) * cycle_seconds
            > lease_seconds,
{
    let c = cycle_seconds as int;
    let l = lease_seconds as int;
    let fit = l / c;
    assert((fit + 1) * c > l) by (nonlinear_arith)
        requires
            fit == l / c,
            c >= 1,
            l >= 0,
    ;
}

} // verus!
