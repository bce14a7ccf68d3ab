//! An atomic multi-instruction transaction engine for an account-based
//! ledger: it derives deterministic account addresses, builds individual
//! state-transition instructions, assembles them into a single signable
//! message, signs that message, and decides how a submission's commitment
//! status is to be read.
//!
//! All network traffic stays outside this crate: the functions here are
//! pure computations on plain values, and the few places where an outside
//! library computes a digest or a signature are isolated behind small
//! trusted wrappers whose contracts name exactly what they rely on.

pub mod addr;
pub mod errors;
pub mod ids;
pub mod instr;
pub mod message;
pub mod submit;
pub mod txn;
