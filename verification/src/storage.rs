//! The treasury's storage: what each storage key holds, and typed helpers that
//! read and write it.
//!
//! Keys of the instance tier: the balance, the entry counter, the admin and the
//! token address. Keys of the persistent tier: one history entry per entry id,
//! and one allocation record per program name.

use soroban_sdk::Address;
use std::collections::HashMap;
use vstd::prelude::*;

use crate::types::{AllocationRecord, TreasuryEntry};

verus! {

broadcast use vstd::std_specs::hash::group_hash_axioms;

/// soroban_sdk's `Address`, held opaquely: the treasury stores addresses and
/// hands them back, and never looks inside one.
#[verifier::external_type_specification]
#[verifier::external_body]
pub struct ExAddress(soroban_sdk::Address);

/// `Address::clone` of soroban_sdk: the derived `Clone` copies the address's
/// environment handle and its object handle, so the clone is the same address.
pub assume_specification[ <soroban_sdk::Address as Clone>::clone ](a: &soroban_sdk::Address) -> (res: soroban_sdk::Address)
    ensures
        res == *a,
;

/// What the treasury's storage holds: for each key, its value if one was written.
pub struct StorageView {
    pub balance: Option<i128>,
    pub entry_count: Option<u64>,
    pub entries: Map<u64, TreasuryEntry>,
    pub allocations: Map<Seq<u8>, AllocationRecord>,
    pub admin: Option<Address>,
    pub token_address: Option<Address>,
}

impl StorageView {
    /// Storage in which no key has been written.
    pub open spec fn empty() -> StorageView {
        StorageView {
            balance: None,
            entry_count: None,
            entries: Map::empty(),
            allocations: Map::empty(),
            admin: None,
            token_address: None,
        }
    }

    /// The balance, reading an unset balance as 0.
    pub open spec fn balance_or_zero(self) -> i128 {
        match self.balance {
            Some(b) => b,
            None => 0,
        }
    }

    /// The number of history entries, reading an unset counter as 0.
    pub open spec fn entry_count_or_zero(self) -> u64 {
        match self.entry_count {
            Some(c) => c,
            None => 0,
        }
    }

    /// The history entry stored under `entry_id`, if any.
    pub open spec fn entry(self, entry_id: u64) -> Option<TreasuryEntry> {
        if self.entries.contains_key(entry_id) {
            Some(self.entries[entry_id])
        } else {
            None
        }
    }

    /// The allocation record stored under the program name `program`, if any.
    pub open spec fn allocation(self, program: Seq<u8>) -> Option<AllocationRecord> {
        if self.allocations.contains_key(program) {
            Some(self.allocations[program])
        } else {
            None
        }
    }

    /// The storage after writing `balance` under the balance key.
    pub open spec fn with_balance(self, balance: i128) -> StorageView {
        StorageView { balance: Some(balance), ..self }
    }

    /// The storage after writing `count` under the entry-count key.
    pub open spec fn with_entry_count(self, count: u64) -> StorageView {
        StorageView { entry_count: Some(count), ..self }
    }

    /// The storage after writing `entry` under the key of `entry_id`.
    pub open spec fn with_entry(self, entry_id: u64, entry: TreasuryEntry) -> StorageView {
        StorageView { entries: self.entries.insert(entry_id, entry), ..self }
    }

    /// The storage after writing `record` under the key of `program`.
    pub open spec fn with_allocation(self, program: Seq<u8>, record: AllocationRecord) -> StorageView {
        StorageView { allocations: self.allocations.insert(program, record), ..self }
    }

    /// The storage after writing `admin` under the admin key.
    pub open spec fn with_admin(self, admin: Address) -> StorageView {
        StorageView { admin: Some(admin), ..self }
    }

    /// The storage after writing `addr` under the token-address key.
    pub open spec fn with_token_address(self, addr: Address) -> StorageView {
        StorageView { token_address: Some(addr), ..self }
    }

    /// Appending is possible while the entry counter can still be increased.
    pub open spec fn can_append(self) -> bool {
        self.entry_count_or_zero() < u64::MAX
    }

    /// The id that the next appended entry receives.
    pub open spec fn next_entry_id(self) -> u64 {
        (self.entry_count_or_zero() + 1) as u64
    }

    /// The storage after appending `entry`: it is stored under the next id,
    /// and the counter becomes that id.
    pub open spec fn appended(self, entry: TreasuryEntry) -> StorageView {
        self.with_entry(self.next_entry_id(), entry).with_entry_count(self.next_entry_id())
    }
}

/// The contents of the treasury's storage. Allocation records are kept as
/// (program name, record) pairs in which no name occurs twice.
pub struct TreasuryStorage {
    balance: Option<i128>,
    entry_count: Option<u64>,
    entries: HashMap<u64, TreasuryEntry>,
    allocations: Vec<(Vec<u8>, AllocationRecord)>,
    admin: Option<Address>,
    token_address: Option<Address>,
}

/// Whether some pair of `records` is stored under the name `program`.
pub open spec fn names_program(records: Seq<(Vec<u8>, AllocationRecord)>, program: Seq<u8>) -> bool {
    exists|i: int| 0 <= i < records.len() && #[trigger] records[i].0@ == program
}

/// The map from program names to records that a list of pairs stands for.
pub open spec fn allocation_map(records: Seq<(Vec<u8>, AllocationRecord)>) -> Map<Seq<u8>, AllocationRecord> {
    Map::new(
        |program: Seq<u8>| names_program(records, program),
        |program: Seq<u8>| records[choose|i: int| 0 <= i < records.len() && #[trigger] records[i].0@ == program].1,
    )
}

/// No two pairs of `records` carry the same program name.
pub open spec fn distinct_names(records: Seq<(Vec<u8>, AllocationRecord)>) -> bool {
    forall|i: int, j: int|
        0 <= i < records.len() && 0 <= j < records.len() && i != j
            ==> #[trigger] records[i].0@ != #[trigger] records[j].0@
}

impl TreasuryStorage {
    #[verifier::type_invariant]
    spec fn names_are_distinct(self) -> bool {
        distinct_names(self.allocations@)
    }
}

impl View for TreasuryStorage {
    type V = StorageView;

    closed spec fn view(&self) -> StorageView {
        StorageView {
            balance: self.balance,
            entry_count: self.entry_count,
            entries: self.entries@,
            allocations: allocation_map(self.allocations@),
            admin: self.admin,
            token_address: self.token_address,
        }
    }
}

impl TreasuryStorage {
    /// Storage in which nothing has been written yet.
    pub fn new() -> (store: TreasuryStorage)
        ensures
            store@ == StorageView::empty(),
    {
        let store = TreasuryStorage {
            balance: None,
            entry_count: None,
            entries: HashMap::new(),
            allocations: Vec::new(),
            admin: None,
            token_address: None,
        };
        assert(store@.allocations =~= Map::<Seq<u8>, AllocationRecord>::empty());
        store
    }
}

/// The history is dense: entries are stored exactly under the ids 1 to the
/// entry count.
pub open spec fn history_is_dense(s: StorageView) -> bool {
    forall|id: u64| #[trigger] s.entries.contains_key(id) <==> 1 <= id <= s.entry_count_or_zero()
}

/// Fresh storage holds nothing under any key: it reads as a zero balance,
/// zero entries, no entry under any id, no allocation for any program, and no
/// admin or token address; its history is dense.
pub proof fn lemma_fresh_storage_reads(entry_id: u64, program: Seq<u8>)
    ensures
        StorageView::empty().balance_or_zero() == 0,
        StorageView::empty().entry_count_or_zero() == 0,
        StorageView::empty().entry(entry_id) == None::<TreasuryEntry>,
        StorageView::empty().allocation(program) == None::<AllocationRecord>,
        StorageView::empty().admin == None::<Address>,
        StorageView::empty().token_address == None::<Address>,
        history_is_dense(StorageView::empty()),
        StorageView::empty().balance is None,
        StorageView::empty().entry_count is None,
        StorageView::empty().entries.dom() == Set::<u64>::empty(),
        StorageView::empty().allocations.dom() == Set::<Seq<u8>>::empty(),
{
}

/// Reading the balance gives back what was last written, and writing it
/// changes no other key.
pub proof fn lemma_balance_read_after_write(s: StorageView, balance: i128)
    ensures
        s.with_balance(balance).balance_or_zero() == balance,
        s.with_balance(balance).entry_count == s.entry_count,
        s.with_balance(balance).entries == s.entries,
        s.with_balance(balance).allocations == s.allocations,
        s.with_balance(balance).admin == s.admin,
        s.with_balance(balance).token_address == s.token_address,
{
}

/// Reading the entry count gives back what was last written, and writing it
/// changes no other key.
pub proof fn lemma_entry_count_read_after_write(s: StorageView, count: u64)
    ensures
        s.with_entry_count(count).entry_count_or_zero() == count,
        s.with_entry_count(count).balance == s.balance,
        s.with_entry_count(count).entries == s.entries,
        s.with_entry_count(count).allocations == s.allocations,
        s.with_entry_count(count).admin == s.admin,
        s.with_entry_count(count).token_address == s.token_address,
{
}

/// Reading an entry gives back what was last written under its id; writing
/// it changes no other id and no other key.
pub proof fn lemma_entry_read_after_write(s: StorageView, entry_id: u64, entry: TreasuryEntry, other_id: u64)
    requires
        other_id != entry_id,
    ensures
        s.with_entry(entry_id, entry).entry(entry_id) == Some(entry),
        s.with_entry(entry_id, entry).entry(other_id) == s.entry(other_id),
        s.with_entry(entry_id, entry).balance == s.balance,
        s.with_entry(entry_id, entry).entry_count == s.entry_count,
        s.with_entry(entry_id, entry).allocations == s.allocations,
        s.with_entry(entry_id, entry).admin == s.admin,
        s.with_entry(entry_id, entry).token_address == s.token_address,
{
}

/// Reading an allocation gives back what was last written under its program
/// name; writing it changes no other program and no other key.
pub proof fn lemma_allocation_read_after_write(s: StorageView, program: Seq<u8>, record: AllocationRecord, other: Seq<u8>)
    requires
        other != program,
    ensures
        s.with_allocation(program, record).allocation(program) == Some(record),
        s.with_allocation(program, record).allocation(other) == s.allocation(other),
        s.with_allocation(program, record).balance == s.balance,
        s.with_allocation(program, record).entry_count == s.entry_count,
        s.with_allocation(program, record).entries == s.entries,
        s.with_allocation(program, record).admin == s.admin,
        s.with_allocation(program, record).token_address == s.token_address,
{
}

/// Reading the admin gives back what was last written, and writing it
/// changes no other key.
pub proof fn lemma_admin_read_after_write(s: StorageView, admin: Address)
    ensures
        s.with_admin(admin).admin == Some(admin),
        s.with_admin(admin).balance == s.balance,
        s.with_admin(admin).entry_count == s.entry_count,
        s.with_admin(admin).entries == s.entries,
        s.with_admin(admin).allocations == s.allocations,
        s.with_admin(admin).token_address == s.token_address,
{
}

/// Reading the token address gives back what was last written, and writing
/// it changes no other key.
pub proof fn lemma_token_address_read_after_write(s: StorageView, addr: Address)
    ensures
        s.with_token_address(addr).token_address == Some(addr),
        s.with_token_address(addr).balance == s.balance,
        s.with_token_address(addr).entry_count == s.entry_count,
        s.with_token_address(addr).entries == s.entries,
        s.with_token_address(addr).allocations == s.allocations,
        s.with_token_address(addr).admin == s.admin,
{
}

/// Appending stores the entry under the id one past the old count, raises
/// the count by one, leaves every other entry and every other key as it was.
pub proof fn lemma_append_entry(s: StorageView, entry: TreasuryEntry, other_id: u64)
    requires
        s.can_append(),
        other_id != s.next_entry_id(),
    ensures
        s.appended(entry).entry_count_or_zero() == s.entry_count_or_zero() + 1,
        s.appended(entry).entry(s.appended(entry).entry_count_or_zero()) == Some(entry),
        s.appended(entry).entry(other_id) == s.entry(other_id),
        s.appended(entry).balance == s.balance,
        s.appended(entry).allocations == s.allocations,
        s.appended(entry).admin == s.admin,
        s.appended(entry).token_address == s.token_address,
{
}

/// Two appends in a row store their entries under consecutive ids, in the
/// order of the calls, and both stay readable.
pub proof fn lemma_append_twice(s: StorageView, first: TreasuryEntry, second: TreasuryEntry)
    requires
        s.entry_count_or_zero() + 2 <= u64::MAX,
    ensures
        s.appended(first).can_append(),
        s.appended(first).appended(second).entry_count_or_zero() == s.entry_count_or_zero() + 2,
        s.appended(first).appended(second).entry((s.entry_count_or_zero() + 1) as u64) == Some(first),
        s.appended(first).appended(second).entry((s.entry_count_or_zero() + 2) as u64) == Some(second),
{
}

/// Appending keeps the history dense: a history with entries under exactly
/// the ids 1 to the count still has that shape afterwards, so an append never
/// overwrites an earlier entry.
pub proof fn lemma_append_keeps_history_dense(s: StorageView, entry: TreasuryEntry)
    requires
        s.can_append(),
        history_is_dense(s),
    ensures
        history_is_dense(s.appended(entry)),
        !s.entries.contains_key(s.next_entry_id()),
{
}

/// An unset balance reads as 0 and a written balance reads as what was
/// written, whatever else the storage holds.
pub proof fn lemma_balance_reads_stored_value(s: StorageView)
    ensures
        s.balance is None ==> s.balance_or_zero() == 0,
        s.balance matches Some(b) ==> s.balance_or_zero() == b,
{
}

/// An unset entry counter reads as 0 and a written counter reads as what was
/// written, whatever else the storage holds; an append is possible unless the
/// counter holds `u64::MAX`.
pub proof fn lemma_entry_count_reads_stored_value(s: StorageView)
    ensures
        s.entry_count is None ==> s.entry_count_or_zero() == 0,
        s.entry_count matches Some(c) ==> s.entry_count_or_zero() == c,
        s.can_append() <==> s.entry_count != Some(u64::MAX),
{
}

/// An id under which nothing is stored reads as no entry, and an id under
/// which an entry is stored reads as that entry, whatever else the storage
/// holds.
pub proof fn lemma_entry_reads_stored_value(s: StorageView, entry_id: u64)
    ensures
        !s.entries.contains_key(entry_id) ==> s.entry(entry_id) == None::<TreasuryEntry>,
        s.entries.contains_key(entry_id) ==> s.entry(entry_id) == Some(s.entries[entry_id]),
{
}

/// A program with no stored record reads as no allocation, and a program
/// with a stored record reads as that record, whatever else the storage holds.
pub proof fn lemma_allocation_reads_stored_value(s: StorageView, program: Seq<u8>)
    ensures
        !s.allocations.contains_key(program) ==> s.allocation(program) == None::<AllocationRecord>,
        s.allocations.contains_key(program) ==> s.allocation(program) == Some(s.allocations[program]),
{
}

/// An append on storage whose counter is unset stores the entry under id 1
/// and sets the counter to 1; on storage whose counter holds `c` it stores
/// the entry under `c + 1` and sets the counter to `c + 1`. Nothing else changes.
pub proof fn lemma_append_uses_stored_counter(s: StorageView, entry: TreasuryEntry)
    requires
        s.can_append(),
    ensures
        s.entry_count is None ==> {
            &&& s.appended(entry).entry_count == Some(1u64)
            &&& s.appended(entry).entries == s.entries.insert(1, entry)
        },
        s.entry_count matches Some(c) ==> {
            &&& c < u64::MAX
            &&& s.appended(entry).entry_count == Some((c + 1) as u64)
            &&& s.appended(entry).entries == s.entries.insert((c + 1) as u64, entry)
        },
        s.appended(entry).balance == s.balance,
        s.appended(entry).allocations == s.allocations,
        s.appended(entry).admin == s.admin,
        s.appended(entry).token_address == s.token_address,
{
}

/// Whether two program names are the same byte string.
fn same_name(a: &Vec<u8>, b: &Vec<u8>) -> (same: bool)
    ensures
        same == (a@ == b@),
{
    if a.len() != b.len() {
        return false;
    }
    let mut i: usize = 0;
    while i < a.len()
        invariant
            a.len() == b.len(),
            0 <= i <= a.len(),
            forall|k: int| 0 <= k < i ==> a@[k] == b@[k],
        decreases a.len() - i,
    {
        if a[i] != b[i] {
            return false;
        }
        i = i + 1;
    }
    assert(a@ =~= b@);
    true
}

/// A copy of a program name.
fn copy_name(name: &Vec<u8>) -> (copy: Vec<u8>)
    ensures
        copy@ == name@,
{
    let mut copy: Vec<u8> = Vec::new();
    let mut i: usize = 0;
    while i < name.len()
        invariant
            0 <= i <= name.len(),
            copy@ == name@.subrange(0, i as int),
        decreases name.len() - i,
    {
        copy.push(name[i]);
        i = i + 1;
        assert(copy@ =~= name@.subrange(0, i as int));
    }
    assert(name@.subrange(0, name.len() as int) =~= name@);
    copy
}

/// The position of the pair stored under `program`, if there is one.
fn find_program(records: &Vec<(Vec<u8>, AllocationRecord)>, program: &Vec<u8>) -> (found: Option<usize>)
    ensures
        match found {
            Some(i) => i < records@.len() && records@[i as int].0@ == program@,
            None => !names_program(records@, program@),
        },
{
    let mut i: usize = 0;
    while i < records.len()
        invariant
            0 <= i <= records.len(),
            forall|k: int| 0 <= k < i ==> #[trigger] records@[k].0@ != program@,
        decreases records.len() - i,
    {
        if same_name(&records[i].0, program) {
            return Some(i);
        }
        i = i + 1;
    }
    None
}

/// In a list without repeated names, the pair at `i` is the one the map reads for its name.
proof fn lemma_allocation_at(records: Seq<(Vec<u8>, AllocationRecord)>, i: int)
    requires
        distinct_names(records),
        0 <= i < records.len(),
    ensures
        allocation_map(records).contains_key(records[i].0@),
        allocation_map(records)[records[i].0@] == records[i].1,
{
    let name = records[i].0@;
    assert(names_program(records, name));
    let j = choose|j: int| 0 <= j < records.len() && #[trigger] records[j].0@ == name;
    assert(records[j].0@ == name);
    assert(j == i);
}

/// Returns the treasury balance; an unset balance reads as 0.
pub fn get_balance(store: &TreasuryStorage) -> (balance: i128)
    ensures
        balance == store@.balance_or_zero(),
{
    match store.balance {
        Some(b) => b,
        None => 0,
    }
}

/// Stores `balance` as the treasury balance.
pub fn set_balance(store: &mut TreasuryStorage, balance: i128)
    ensures
        final(store)@ == old(store)@.with_balance(balance),
{
    proof {
        use_type_invariant(&*store);
    }
    store.balance = Some(balance);
}

/// Returns the history entry stored under `entry_id`, if any.
pub fn get_entry(store: &TreasuryStorage, entry_id: u64) -> (entry: Option<TreasuryEntry>)
    ensures
        entry == store@.entry(entry_id),
{
    match store.entries.get(&entry_id) {
        Some(e) => Some(*e),
        None => None,
    }
}

/// Stores `entry` under `entry_id`.
pub fn set_entry(store: &mut TreasuryStorage, entry_id: u64, entry: &TreasuryEntry)
    ensures
        final(store)@ == old(store)@.with_entry(entry_id, *entry),
{
    proof {
        use_type_invariant(&*store);
    }
    let mut entries = HashMap::new();
    std::mem::swap(&mut entries, &mut store.entries);
    entries.insert(entry_id, *entry);
    std::mem::swap(&mut entries, &mut store.entries);
}

/// Returns the number of history entries; an unset counter reads as 0.
pub fn get_entry_count(store: &TreasuryStorage) -> (count: u64)
    ensures
        count == store@.entry_count_or_zero(),
{
    match store.entry_count {
        Some(c) => c,
        None => 0,
    }
}

/// Stores `count` as the number of history entries.
pub fn set_entry_count(store: &mut TreasuryStorage, count: u64)
    ensures
        final(store)@ == old(store)@.with_entry_count(count),
{
    proof {
        use_type_invariant(&*store);
    }
    store.entry_count = Some(count);
}

/// Appends `entry` to the history: it is stored under the id one past the
/// current count, and the count becomes that id.
pub fn append_entry(store: &mut TreasuryStorage, entry: &TreasuryEntry)
    requires
        old(store)@.can_append(),
    ensures
        final(store)@ == old(store)@.appended(*entry),
{
    let next_id = get_entry_count(store) + 1;
    set_entry(store, next_id, entry);
    set_entry_count(store, next_id);
}

/// Returns the allocation record of the program named `program`, if any.
pub fn get_allocation(store: &TreasuryStorage, program: &Vec<u8>) -> (record: Option<AllocationRecord>)
    ensures
        record == store@.allocation(program@),
{
    proof {
        use_type_invariant(store);
    }
    match find_program(&store.allocations, program) {
        Some(i) => {
            proof {
                lemma_allocation_at(store.allocations@, i as int);
            }
            Some(store.allocations[i].1)
        },
        None => None,
    }
}

/// Stores `record` as the allocation record of the program named `program`.
pub fn set_allocation(store: &mut TreasuryStorage, program: &Vec<u8>, record: &AllocationRecord)
    ensures
        final(store)@ == old(store)@.with_allocation(program@, *record),
{
    proof {
        use_type_invariant(&*store);
    }
    let mut records: Vec<(Vec<u8>, AllocationRecord)> = Vec::new();
    std::mem::swap(&mut records, &mut store.allocations);
    let ghost before = records@;
    let name = copy_name(program);
    match find_program(&records, program) {
        Some(i) => {
            records.set(i, (name, *record));
            proof {
                let after = records@;
                assert(after =~= before.update(i as int, after[i as int]));
                assert(allocation_map(after) =~= allocation_map(before).insert(program@, *record)) by {
                    lemma_allocation_at(after, i as int);
                    assert forall|p: Seq<u8>| names_program(after, p) <==> names_program(before, p) by {
                        if names_program(after, p) {
                            let j = choose|j: int| 0 <= j < after.len() && #[trigger] after[j].0@ == p;
                            assert(before[j].0@ == p);
                        }
                        if names_program(before, p) {
                            let j = choose|j: int| 0 <= j < before.len() && #[trigger] before[j].0@ == p;
                            assert(after[j].0@ == p);
                        }
                    }
                    assert forall|p: Seq<u8>| names_program(after, p) && p != program@ implies
                        allocation_map(after)[p] == allocation_map(before)[p] by {
                        let j = choose|j: int| 0 <= j < after.len() && #[trigger] after[j].0@ == p;
                        assert(j != i);
                        lemma_allocation_at(after, j);
                        lemma_allocation_at(before, j);
                    }
                }
            }
        },
        None => {
            records.push((name, *record));
            proof {
                let after = records@;
                let n = before.len() as int;
                assert(after =~= before.push(after[n]));
                assert(allocation_map(after) =~= allocation_map(before).insert(program@, *record)) by {
                    lemma_allocation_at(after, n);
                    assert forall|p: Seq<u8>| names_program(after, p) <==> (names_program(before, p) || p == program@) by {
                        if names_program(after, p) {
                            let j = choose|j: int| 0 <= j < after.len() && #[trigger] after[j].0@ == p;
                            if j < n {
                                assert(before[j].0@ == p);
                            }
                        }
                        if names_program(before, p) {
                            let j = choose|j: int| 0 <= j < before.len() && #[trigger] before[j].0@ == p;
                            assert(after[j].0@ == p);
                        }
                    }
                    assert forall|p: Seq<u8>| names_program(before, p) && p != program@ implies
                        allocation_map(after)[p] == allocation_map(before)[p] by {
                        let j = choose|j: int| 0 <= j < before.len() && #[trigger] before[j].0@ == p;
                        assert(after[j].0@ == p);
                        lemma_allocation_at(after, j);
                        lemma_allocation_at(before, j);
                    }
                }
            }
        },
    }
    std::mem::swap(&mut records, &mut store.allocations);
}

/// Returns the treasury admin, if one was stored.
pub fn get_admin(store: &TreasuryStorage) -> (admin: Option<Address>)
    ensures
        admin == store@.admin,
{
    match &store.admin {
        Some(a) => Some(a.clone()),
        None => None,
    }
}

/// Stores `admin` as the treasury admin.
pub fn set_admin(store: &mut TreasuryStorage, admin: &Address)
    ensures
        final(store)@ == old(store)@.with_admin(*admin),
{
    proof {
        use_type_invariant(&*store);
    }
    store.admin = Some(admin.clone());
}

/// Returns the address of the treasury token, if one was stored.
pub fn get_token_address(store: &TreasuryStorage) -> (addr: Option<Address>)
    ensures
        addr == store@.token_address,
{
    match &store.token_address {
        Some(a) => Some(a.clone()),
        None => None,
    }
}

/// Stores `addr` as the address of the treasury token.
pub fn set_token_address(store: &mut TreasuryStorage, addr: &Address)
    ensures
        final(store)@ == old(store)@.with_token_address(*addr),
{
    proof {
        use_type_invariant(&*store);
    }
    store.token_address = Some(addr.clone());
}

} // verus!
