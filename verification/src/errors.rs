//! Error codes that the treasury contract returns.

use vstd::prelude::*;

verus! {

/// The errors that a treasury call can end in.
#[derive(Debug, Clone, Copy, PartialEq, Eq, Structural)]
pub enum ContractError {
    /// `initialize` was called on a treasury that already has an admin.
    AlreadyInitialized,
    /// The requested history entry (or program) does not exist.
    ProgramNotFound,
}

} // verus!
