//! The records that the treasury keeps in its storage.

use vstd::prelude::*;

verus! {

/// The direction of a movement of treasury funds.
#[derive(Debug, Clone, Copy, PartialEq, Eq, Structural)]
pub enum EntryKind {
    /// Funds flowed into the treasury.
    Deposit,
    /// Funds were paid out of the treasury.
    Withdrawal,
    /// Budget was set aside for a spending program.
    Allocation,
}

/// One line of the treasury's on-chain history.
#[derive(Debug, Clone, Copy, PartialEq, Eq, Structural)]
pub struct TreasuryEntry {
    /// What kind of movement this entry records.
    pub kind: EntryKind,
    /// The amount of tokens that moved.
    pub amount: i128,
    /// The ledger timestamp at which the movement happened.
    pub timestamp: u64,
}

/// The budget of a named spending program.
#[derive(Debug, Clone, Copy, PartialEq, Eq, Structural)]
pub struct AllocationRecord {
    /// Tokens allocated to the program so far.
    pub allocated: i128,
    /// Tokens the program has spent so far.
    pub spent: i128,
}

} // verus!
