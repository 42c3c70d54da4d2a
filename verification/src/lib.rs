//! Protocol treasury: the storage of the treasury contract and the contract's
//! entry points, verified.
//!
//! The treasury holds protocol funds for relay node incentive programs, grants
//! and protocol development. Its storage keeps the balance, an append-only
//! history of entries, per-program allocations, the admin and the token address.

use soroban_sdk::Address;
use vstd::prelude::*;

pub mod errors;
pub mod storage;
pub mod types;

use crate::errors::ContractError;
use crate::storage::{StorageView, TreasuryStorage};
use crate::types::TreasuryEntry;

verus! {

/// The treasury contract.
pub struct TreasuryContract;

/// What `get_history` answers for `entry_id`: the stored entry, or
/// `ProgramNotFound` where none is stored.
pub open spec fn history_outcome(s: StorageView, entry_id: u64) -> Result<TreasuryEntry, ContractError> {
    match s.entry(entry_id) {
        Some(e) => Ok(e),
        None => Err(ContractError::ProgramNotFound),
    }
}

/// What `initialize` does to storage `s`: where an admin is already stored it
/// fails with `AlreadyInitialized`; otherwise it stores the admin, the token
/// address and a zero balance.
pub open spec fn initialize_outcome(s: StorageView, admin: Address, token_address: Address) -> Result<StorageView, ContractError> {
    if s.admin is Some {
        Err(ContractError::AlreadyInitialized)
    } else {
        Ok(s.with_admin(admin).with_token_address(token_address).with_balance(0))
    }
}

/// First caller wins: `initialize` succeeds exactly when no admin is stored;
/// after it succeeded the admin and token address are those it was given and
/// the balance reads 0, and every further `initialize` fails with
/// `AlreadyInitialized`.
pub proof fn lemma_initialize_first_caller_wins(
    s: StorageView,
    admin: Address,
    token_address: Address,
    later_admin: Address,
    later_token_address: Address,
)
    ensures
        initialize_outcome(s, admin, token_address) is Ok <==> s.admin is None,
        initialize_outcome(s, admin, token_address) matches Ok(t) ==> {
            &&& t.admin == Some(admin)
            &&& t.token_address == Some(token_address)
            &&& t.balance_or_zero() == 0
            &&& initialize_outcome(t, later_admin, later_token_address) == Err::<StorageView, ContractError>(
                ContractError::AlreadyInitialized,
            )
        },
{
}

/// `initialize` leaves the history alone: the entry count, every entry and
/// every allocation are the same after it as before.
pub proof fn lemma_initialize_keeps_history(s: StorageView, admin: Address, token_address: Address, entry_id: u64)
    ensures
        initialize_outcome(s, admin, token_address) matches Ok(t) ==> {
            &&& t.entry_count == s.entry_count
            &&& t.entries == s.entries
            &&& t.allocations == s.allocations
            &&& history_outcome(t, entry_id) == history_outcome(s, entry_id)
        },
{
}

/// The history answers for an appended entry under the id it received, and
/// keeps answering as before for every other id.
pub proof fn lemma_history_after_append(s: StorageView, entry: TreasuryEntry, other_id: u64)
    requires
        s.can_append(),
        other_id != s.next_entry_id(),
    ensures
        history_outcome(s.appended(entry), s.next_entry_id()) == Ok::<TreasuryEntry, ContractError>(entry),
        history_outcome(s.appended(entry), other_id) == history_outcome(s, other_id),
{
}

/// A fresh treasury reads a zero balance, answers `ProgramNotFound` for every
/// history id, and accepts `initialize`.
pub proof fn lemma_fresh_treasury(entry_id: u64, admin: Address, token_address: Address)
    ensures
        StorageView::empty().balance_or_zero() == 0,
        history_outcome(StorageView::empty(), entry_id) == Err::<TreasuryEntry, ContractError>(
            ContractError::ProgramNotFound,
        ),
        initialize_outcome(StorageView::empty(), admin, token_address) is Ok,
{
}

/// `get_history` answers with the entry stored under the id, whatever the
/// entry counter holds, and with `ProgramNotFound` exactly when no entry is
/// stored under it.
pub proof fn lemma_history_reads_stored_entry(s: StorageView, entry_id: u64)
    ensures
        s.entries.contains_key(entry_id) ==> history_outcome(s, entry_id) == Ok::<TreasuryEntry, ContractError>(
            s.entries[entry_id],
        ),
        !s.entries.contains_key(entry_id) ==> history_outcome(s, entry_id) == Err::<TreasuryEntry, ContractError>(
            ContractError::ProgramNotFound,
        ),
{
}

/// A fresh treasury's balance reads 0 after `initialize`, and `get_balance`
/// reads 0 on any storage in which no balance was written.
pub proof fn lemma_unset_balance_reads_zero(s: StorageView, admin: Address, token_address: Address)
    ensures
        s.balance is None ==> s.balance_or_zero() == 0,
        initialize_outcome(s, admin, token_address) matches Ok(t) ==> t.balance == Some(0i128),
{
}

impl TreasuryContract {
    /// Returns the current treasury token balance.
    ///
    /// Public view function; never errors. Returns 0 if the balance is unset.
    pub fn get_balance(store: &TreasuryStorage) -> (balance: i128)
        ensures
            balance == store@.balance_or_zero(),
    {
        storage::get_balance(store)
    }

    /// Returns a specific history entry by its id, for auditing.
    ///
    /// Fails with `ContractError::ProgramNotFound` when no entry has that id.
    pub fn get_history(store: &TreasuryStorage, entry_id: u64) -> (result: Result<TreasuryEntry, ContractError>)
        ensures
            result == history_outcome(store@, entry_id),
    {
        match storage::get_entry(store, entry_id) {
            Some(e) => Ok(e),
            None => Err(ContractError::ProgramNotFound),
        }
    }

    /// One-time setup configuring the admin and the token address.
    ///
    /// First caller wins; no authorization is required. Fails with
    /// `AlreadyInitialized`, leaving storage unchanged, if an admin is stored.
    pub fn initialize(store: &mut TreasuryStorage, admin: Address, token_address: Address) -> (result: Result<(), ContractError>)
        ensures
            match initialize_outcome(old(store)@, admin, token_address) {
                Ok(s) => result == Ok::<(), ContractError>(()) && final(store)@ == s,
                Err(e) => result == Err::<(), ContractError>(e) && final(store)@ == old(store)@,
            },
    {
        if storage::get_admin(store).is_some() {
            return Err(ContractError::AlreadyInitialized);
        }
        storage::set_admin(store, &admin);
        storage::set_token_address(store, &token_address);
        storage::set_balance(store, 0);
        Ok(())
    }
}

} // verus!
