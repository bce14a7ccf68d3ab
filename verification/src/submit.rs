//! The decisions behind submission and confirmation: how durably a
//! transaction has been accepted, when a bounded poll loop stops, and how
//! a balance read is settled. The network round trips themselves happen
//! outside this crate; each function here takes the plain outcome of one
//! round trip and decides what it means.

use vstd::prelude::*;
use crate::errors::OracleError;

verus! {

/// How durably the ledger's consensus has accepted a transaction, from
/// least to most durable.
#[derive(Clone, Copy, Debug, PartialEq, Eq, Structural)]
pub enum CommitmentLevel {
    Processed,
    Confirmed,
    Finalized,
}

/// The rank of a commitment level in the durability order.
pub open spec fn level_rank(level: CommitmentLevel) -> int {
    match level {
        CommitmentLevel::Processed => 0,
        CommitmentLevel::Confirmed => 1,
        CommitmentLevel::Finalized => 2,
    }
}

/// Whether `level` is at least as durable as `target`.
pub fn level_at_least(level: CommitmentLevel, target: CommitmentLevel) -> (r: bool)
    ensures
        r == (level_rank(level) >= level_rank(target)),
{
    let l: u8 = match level {
        CommitmentLevel::Processed => 0,
        CommitmentLevel::Confirmed => 1,
        CommitmentLevel::Finalized => 2,
    };
    let t: u8 = match target {
        CommitmentLevel::Processed => 0,
        CommitmentLevel::Confirmed => 1,
        CommitmentLevel::Finalized => 2,
    };
    l >= t
}

/// What one round of the confirmation poll decides.
#[derive(Clone, Copy, Debug, PartialEq, Eq, Structural)]
pub enum PollDecision {
    /// The transaction has reached at least the target level.
    Committed,
    /// Not there yet and time remains: poll again after the interval.
    KeepWaiting,
    /// The timeout elapsed first. This is inconclusive — the transaction
    /// may still land later — never proof of failure.
    TimedOut,
}

/// Decides one round of the bounded confirmation poll from the observed
/// commitment level (`None` while the ledger reports none), the target
/// level, and the elapsed and allowed waiting times.
///
/// The decision is `Committed` exactly when the observation has reached
/// the target, `TimedOut` exactly when it has not and the timeout has
/// elapsed, and `KeepWaiting` otherwise; the poll never errs on a mere
/// delay.
pub fn poll_step(
    observed: Option<CommitmentLevel>,
    target: CommitmentLevel,
    elapsed_ms: u64,
    timeout_ms: u64,
) -> (r: PollDecision)
    ensures
        r == PollDecision::Committed <==> (observed matches Some(level) && level_rank(level)
            >= level_rank(target)),
        r == PollDecision::TimedOut <==> (!(observed matches Some(level) && level_rank(level)
            >= level_rank(target)) && elapsed_ms >= timeout_ms),
        r == PollDecision::KeepWaiting <==> (!(observed matches Some(level) && level_rank(level)
            >= level_rank(target)) && elapsed_ms < timeout_ms),
{
    match observed {
        Option::Some(level) => {
            if level_at_least(level, target) {
                return PollDecision::Committed;
            }
            if elapsed_ms >= timeout_ms {
                PollDecision::TimedOut
            } else {
                PollDecision::KeepWaiting
            }
        },
        Option::None => {
            if elapsed_ms >= timeout_ms {
                PollDecision::TimedOut
            } else {
                PollDecision::KeepWaiting
            }
        },
    }
}

/// How many polls a bounded wait makes at a fixed interval: the smallest
/// number of whole intervals covering the timeout.
pub fn poll_budget(poll_interval_ms: u64, timeout_ms: u64) -> (r: u64)
    requires
        poll_interval_ms >= 1,
        timeout_ms + poll_interval_ms - 1 <= u64::MAX,
    ensures
        r as int == (timeout_ms as int + poll_interval_ms as int - 1) / (poll_interval_ms as int),
        r as int * poll_interval_ms as int >= timeout_ms as int,
{
    let ghost i = poll_interval_ms as int;
    let ghost t = timeout_ms as int;
    if timeout_ms == 0 {
        proof {
            assert((i - 1) / i == 0) by (nonlinear_arith)
                requires
                    i >= 1,
            ;
        }
        return 0;
    }
    let r = 1 + (timeout_ms - 1) / poll_interval_ms;
    proof {
        assert((t - 1) / i + 1 == (t + i - 1) / i && ((t - 1) / i + 1) * i >= t)
            by (nonlinear_arith)
            requires
                i >= 1,
                t >= 1,
        ;
    }
    r
}

/// Settles a balance read. The outer `None` is a failed round trip, kept
/// distinct from an absent account (the inner `None`), which the ledger
/// convention reads as a zero balance rather than an error.
pub fn settle_balance(read: Option<Option<u64>>) -> (r: Result<u64, OracleError>)
    ensures
        read matches Some(Some(b)) ==> r == Result::<u64, OracleError>::Ok(b),
        read matches Some(None) ==> r == Result::<u64, OracleError>::Ok(0u64),
        read is None <==> r == Result::<u64, OracleError>::Err(OracleError::NodeUnavailable),
{
    match read {
        Option::Some(Option::Some(balance)) => Ok(balance),
        Option::Some(Option::None) => Ok(0),
        Option::None => Err(OracleError::NodeUnavailable),
    }
}

} // verus!
