//! The error taxonomy of the engine, split by the phase that detects each
//! condition: address derivation, local assembly and signing, balance
//! reads, and ledger-side rejection surfaced at submission time.

use vstd::prelude::*;

verus! {

/// Failures of deterministic address derivation. These are detected
/// locally, before any instruction is built.
#[derive(Clone, Copy, Debug, PartialEq, Eq, Structural)]
pub enum DeriveError {
    /// The seed exceeds the maximum allowed length, or the owning
    /// program id is malformed.
    InvalidSeed,
    /// No bump value yields an address off the signing-key curve.
    NoValidAddress,
}

/// Failures of local transaction assembly and signing. These never reach
/// the network.
#[derive(Clone, Copy, Debug, PartialEq, Eq, Structural)]
pub enum SignError {
    /// A signer required by the message has no matching key in the
    /// supplied key list.
    MissingSigner,
}

/// Failures of balance and account reads.
#[derive(Clone, Copy, Debug, PartialEq, Eq, Structural)]
pub enum OracleError {
    /// The ledger node could not be reached or answered malformed data;
    /// distinct from an absent account, which reads as a zero balance.
    NodeUnavailable,
}

/// Ledger-side rejections surfaced only at submission time. The engine
/// never retries these: resubmitting a rejected transaction fails again.
#[derive(Clone, Copy, Debug, PartialEq, Eq, Structural)]
pub enum LedgerRejection {
    /// A derived account in the transaction does not match its
    /// (base, seed, owner) derivation.
    AddressMismatch,
    /// The paying account holds less than the transferred amount plus its
    /// own rent-exempt minimum.
    InsufficientFunds,
    /// The decimals value of a mint operation does not match the mint's
    /// stored decimals.
    DecimalMismatch,
    /// The account to be created already exists.
    AccountAlreadyExists,
    /// The network refused an airdrop request.
    AirdropRejected,
    /// The node rejected the transaction outright, for a reason other
    /// than the ones above (stale block reference, missing signature).
    SimulationRejected,
}

} // verus!
