//! A single-process, append-only ledger: an ordered chain of blocks, each
//! committing a batch of pending transfers, linked to its predecessor by a
//! digest of the previous header and sealed by a proof-of-work puzzle.

use vstd::prelude::*;

pub mod chain;
pub mod digest;
pub mod encoding;
pub mod merkle;
pub mod pow;

verus! {

/// The explicit failures of the ledger.
#[derive(Clone, Copy, Debug, PartialEq, Eq, Structural)]
pub enum LedgerError {
    /// Merkle aggregation was asked for an empty transaction list.
    EmptyTransactionList,
    /// No nonce in the search space satisfies the difficulty predicate.
    DifficultyUnsatisfiable,
}

} // verus!
