use soroban_sdk::{Address, Env};
use treasury::errors::ContractError;
use treasury::storage;
use treasury::storage::TreasuryStorage;
use treasury::types::{AllocationRecord, EntryKind, TreasuryEntry};
use treasury::TreasuryContract;

fn new_address(env: &Env) -> Address {
    <Address as soroban_sdk::testutils::Address>::generate(env)
}

fn entry(kind: EntryKind, amount: i128, timestamp: u64) -> TreasuryEntry {
    TreasuryEntry { kind, amount, timestamp }
}

#[test]
fn test_fresh_storage_defaults() {
    let store = TreasuryStorage::new();
    assert_eq!(storage::get_balance(&store), 0);
    assert_eq!(storage::get_entry_count(&store), 0);
    assert_eq!(storage::get_entry(&store, 1), None);
    assert_eq!(storage::get_allocation(&store, &b"grants".to_vec()), None);
    assert!(storage::get_admin(&store).is_none());
    assert!(storage::get_token_address(&store).is_none());
}

#[test]
fn test_get_balance_defaults_to_zero() {
    let store = TreasuryStorage::new();
    assert_eq!(TreasuryContract::get_balance(&store), 0);
}

#[test]
fn test_get_balance_after_set() {
    let mut store = TreasuryStorage::new();
    storage::set_balance(&mut store, 1_500);
    assert_eq!(TreasuryContract::get_balance(&store), 1_500);
    storage::set_balance(&mut store, -7);
    assert_eq!(TreasuryContract::get_balance(&store), -7);
    assert_eq!(storage::get_entry_count(&store), 0);
}

#[test]
fn test_initialize_success() {
    let env = Env::default();
    let admin = new_address(&env);
    let token = new_address(&env);
    let mut store = TreasuryStorage::new();
    storage::set_balance(&mut store, 99);
    let result = TreasuryContract::initialize(&mut store, admin.clone(), token.clone());
    assert_eq!(result, Ok(()));
    assert_eq!(storage::get_admin(&store), Some(admin));
    assert_eq!(storage::get_token_address(&store), Some(token));
    assert_eq!(TreasuryContract::get_balance(&store), 0);
}

#[test]
fn test_initialize_already_initialized() {
    let env = Env::default();
    let admin = new_address(&env);
    let token = new_address(&env);
    let other_admin = new_address(&env);
    let other_token = new_address(&env);
    let mut store = TreasuryStorage::new();
    assert_eq!(TreasuryContract::initialize(&mut store, admin.clone(), token.clone()), Ok(()));
    storage::set_balance(&mut store, 250);
    let second = TreasuryContract::initialize(&mut store, other_admin, other_token);
    assert_eq!(second, Err(ContractError::AlreadyInitialized));
    assert_eq!(storage::get_admin(&store), Some(admin));
    assert_eq!(storage::get_token_address(&store), Some(token));
    assert_eq!(TreasuryContract::get_balance(&store), 250);
}

#[test]
fn test_initialize_refused_when_admin_set_directly() {
    let env = Env::default();
    let admin = new_address(&env);
    let token = new_address(&env);
    let mut store = TreasuryStorage::new();
    storage::set_admin(&mut store, &admin);
    let result = TreasuryContract::initialize(&mut store, new_address(&env), token);
    assert_eq!(result, Err(ContractError::AlreadyInitialized));
    assert!(storage::get_token_address(&store).is_none());
    assert_eq!(storage::get_admin(&store), Some(admin));
}

#[test]
fn test_initialize_keeps_history() {
    let env = Env::default();
    let mut store = TreasuryStorage::new();
    let deposit = entry(EntryKind::Deposit, 40, 11);
    storage::append_entry(&mut store, &deposit);
    let result = TreasuryContract::initialize(&mut store, new_address(&env), new_address(&env));
    assert_eq!(result, Ok(()));
    assert_eq!(storage::get_entry_count(&store), 1);
    assert_eq!(TreasuryContract::get_history(&store, 1), Ok(deposit));
}

#[test]
fn test_get_history_missing_entry() {
    let store = TreasuryStorage::new();
    assert_eq!(TreasuryContract::get_history(&store, 0), Err(ContractError::ProgramNotFound));
    assert_eq!(TreasuryContract::get_history(&store, 1), Err(ContractError::ProgramNotFound));
    assert_eq!(TreasuryContract::get_history(&store, u64::MAX), Err(ContractError::ProgramNotFound));
}

#[test]
fn test_append_entry_assigns_consecutive_ids() {
    let mut store = TreasuryStorage::new();
    let first = entry(EntryKind::Deposit, 1_000, 5);
    let second = entry(EntryKind::Withdrawal, 300, 6);
    let third = entry(EntryKind::Allocation, 200, 7);
    storage::append_entry(&mut store, &first);
    assert_eq!(storage::get_entry_count(&store), 1);
    storage::append_entry(&mut store, &second);
    storage::append_entry(&mut store, &third);
    assert_eq!(storage::get_entry_count(&store), 3);
    assert_eq!(TreasuryContract::get_history(&store, 1), Ok(first));
    assert_eq!(TreasuryContract::get_history(&store, 2), Ok(second));
    assert_eq!(TreasuryContract::get_history(&store, 3), Ok(third));
    assert_eq!(TreasuryContract::get_history(&store, 0), Err(ContractError::ProgramNotFound));
    assert_eq!(TreasuryContract::get_history(&store, 4), Err(ContractError::ProgramNotFound));
}

#[test]
fn test_append_entry_after_count_set() {
    let mut store = TreasuryStorage::new();
    storage::set_entry_count(&mut store, 41);
    let e = entry(EntryKind::Deposit, 12, 99);
    storage::append_entry(&mut store, &e);
    assert_eq!(storage::get_entry_count(&store), 42);
    assert_eq!(storage::get_entry(&store, 42), Some(e));
    assert_eq!(storage::get_entry(&store, 41), None);
}

#[test]
fn test_append_entry_up_to_the_last_id() {
    let mut store = TreasuryStorage::new();
    storage::set_entry_count(&mut store, u64::MAX - 1);
    let e = entry(EntryKind::Withdrawal, 3, 4);
    storage::append_entry(&mut store, &e);
    assert_eq!(storage::get_entry_count(&store), u64::MAX);
    assert_eq!(TreasuryContract::get_history(&store, u64::MAX), Ok(e));
}

#[test]
fn test_set_entry_overwrites_one_id() {
    let mut store = TreasuryStorage::new();
    let a = entry(EntryKind::Deposit, 1, 1);
    let b = entry(EntryKind::Deposit, 2, 2);
    let c = entry(EntryKind::Withdrawal, 3, 3);
    storage::set_entry(&mut store, 10, &a);
    storage::set_entry(&mut store, 20, &b);
    storage::set_entry(&mut store, 10, &c);
    assert_eq!(storage::get_entry(&store, 10), Some(c));
    assert_eq!(storage::get_entry(&store, 20), Some(b));
    assert_eq!(storage::get_entry_count(&store), 0);
}

#[test]
fn test_allocations_read_after_write() {
    let mut store = TreasuryStorage::new();
    let grants = b"grants".to_vec();
    let relays = b"relays".to_vec();
    let r1 = AllocationRecord { allocated: 500, spent: 0 };
    let r2 = AllocationRecord { allocated: 900, spent: 100 };
    let r3 = AllocationRecord { allocated: 500, spent: 250 };
    storage::set_allocation(&mut store, &grants, &r1);
    storage::set_allocation(&mut store, &relays, &r2);
    assert_eq!(storage::get_allocation(&store, &grants), Some(r1));
    assert_eq!(storage::get_allocation(&store, &relays), Some(r2));
    storage::set_allocation(&mut store, &grants, &r3);
    assert_eq!(storage::get_allocation(&store, &grants), Some(r3));
    assert_eq!(storage::get_allocation(&store, &relays), Some(r2));
    assert_eq!(storage::get_allocation(&store, &b"grant".to_vec()), None);
    assert_eq!(storage::get_allocation(&store, &b"grantss".to_vec()), None);
    assert_eq!(storage::get_allocation(&store, &Vec::new()), None);
}

#[test]
fn test_allocation_empty_program_name() {
    let mut store = TreasuryStorage::new();
    let r = AllocationRecord { allocated: 1, spent: 1 };
    storage::set_allocation(&mut store, &Vec::new(), &r);
    assert_eq!(storage::get_allocation(&store, &Vec::new()), Some(r));
    assert_eq!(storage::get_allocation(&store, &vec![0u8]), None);
}

#[test]
fn test_admin_and_token_read_after_write() {
    let env = Env::default();
    let admin = new_address(&env);
    let admin2 = new_address(&env);
    let token = new_address(&env);
    let mut store = TreasuryStorage::new();
    storage::set_admin(&mut store, &admin);
    storage::set_token_address(&mut store, &token);
    assert_eq!(storage::get_admin(&store), Some(admin.clone()));
    assert_eq!(storage::get_token_address(&store), Some(token.clone()));
    storage::set_admin(&mut store, &admin2);
    assert_eq!(storage::get_admin(&store), Some(admin2.clone()));
    assert_ne!(storage::get_admin(&store), Some(admin));
    assert_eq!(storage::get_token_address(&store), Some(token));
}

#[test]
fn test_writes_leave_other_keys_alone() {
    let env = Env::default();
    let mut store = TreasuryStorage::new();
    let e = entry(EntryKind::Deposit, 8, 9);
    storage::append_entry(&mut store, &e);
    storage::set_balance(&mut store, 77);
    storage::set_admin(&mut store, &new_address(&env));
    storage::set_allocation(&mut store, &b"ops".to_vec(), &AllocationRecord { allocated: 3, spent: 0 });
    assert_eq!(storage::get_entry_count(&store), 1);
    assert_eq!(storage::get_entry(&store, 1), Some(e));
    assert_eq!(storage::get_balance(&store), 77);
    assert!(storage::get_token_address(&store).is_none());
}
