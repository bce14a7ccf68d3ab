use txengine::errors::OracleError;
use txengine::submit::{
    level_at_least, poll_budget, poll_step, settle_balance, CommitmentLevel, PollDecision,
};

#[test]
fn commitment_levels_are_ordered() {
    assert!(level_at_least(CommitmentLevel::Finalized, CommitmentLevel::Processed));
    assert!(level_at_least(CommitmentLevel::Confirmed, CommitmentLevel::Confirmed));
    assert!(!level_at_least(CommitmentLevel::Processed, CommitmentLevel::Confirmed));
    assert!(!level_at_least(CommitmentLevel::Confirmed, CommitmentLevel::Finalized));
}

#[test]
fn poll_step_commits_at_or_above_target() {
    assert_eq!(
        poll_step(Some(CommitmentLevel::Confirmed), CommitmentLevel::Confirmed, 0, 1000),
        PollDecision::Committed
    );
    assert_eq!(
        poll_step(Some(CommitmentLevel::Finalized), CommitmentLevel::Confirmed, 5000, 1000),
        PollDecision::Committed
    );
}

#[test]
fn poll_step_waits_while_time_remains() {
    assert_eq!(
        poll_step(Some(CommitmentLevel::Processed), CommitmentLevel::Confirmed, 400, 1000),
        PollDecision::KeepWaiting
    );
    assert_eq!(poll_step(None, CommitmentLevel::Confirmed, 999, 1000), PollDecision::KeepWaiting);
}

#[test]
fn poll_step_times_out_inconclusively() {
    assert_eq!(
        poll_step(Some(CommitmentLevel::Processed), CommitmentLevel::Finalized, 1000, 1000),
        PollDecision::TimedOut
    );
    assert_eq!(poll_step(None, CommitmentLevel::Confirmed, 2000, 1000), PollDecision::TimedOut);
}

#[test]
fn poll_budget_covers_the_timeout() {
    assert_eq!(poll_budget(100, 1000), 10);
    assert_eq!(poll_budget(100, 1001), 11);
    assert_eq!(poll_budget(100, 999), 10);
    assert_eq!(poll_budget(7, 0), 0);
    assert!(poll_budget(250, 1000) * 250 >= 1000);
}

#[test]
fn settle_balance_reads_absence_as_zero() {
    assert_eq!(settle_balance(Some(Some(41))), Ok(41));
    assert_eq!(settle_balance(Some(None)), Ok(0));
    assert_eq!(settle_balance(None), Err(OracleError::NodeUnavailable));
}
