//! Identifier map: from a 64-bit entity hash to the entity's name.
use vstd::prelude::*;
use rustc_hash::{FxHashMap, FxHasher};
use std::hash::BuildHasherDefault;
use vstd::rwlock::{RwLock, RwLockPredicate};

verus! {

#[verifier::external_type_specification]
#[verifier::external_body]
pub struct ExFxHasher(FxHasher);

#[verifier::external_type_specification]
#[verifier::external_body]
#[verifier::reject_recursive_types(H)]
pub struct ExBuildHasherDefault<H>(BuildHasherDefault<H>);

/// The table behind an identifier map.
pub type NameTable = FxHashMap<u64, String>;

/// What an `FxHashMap` from hashes to names holds.
pub uninterp spec fn fx_entries(m: NameTable) -> Map<u64, Seq<char>>;

/// Relies on `FxHashMap::default` (a std `HashMap` with rustc-hash's hasher):
/// a new map is empty.
#[verifier::external_body]
fn fx_new() -> (r: NameTable)
    ensures
        fx_entries(r).dom().is_empty(),
{
    FxHashMap::default()
}

/// Relies on `HashMap::get` (with rustc-hash's hasher): the value stored
/// under the key, if any.
#[verifier::external_body]
fn fx_get(m: &NameTable, k: u64) -> (r: Option<&String>)
    ensures
        match r {
            Some(v) => fx_entries(*m).contains_key(k) && fx_entries(*m)[k] == v@,
            None => !fx_entries(*m).contains_key(k),
        },
{
    m.get(&k)
}

/// Relies on `HashMap::contains_key` (with rustc-hash's hasher).
#[verifier::external_body]
fn fx_contains_key(m: &NameTable, k: u64) -> (r: bool)
    ensures
        r == fx_entries(*m).contains_key(k),
{
    m.contains_key(&k)
}

/// Relies on `HashMap::insert` (with rustc-hash's hasher): the key now maps
/// to the value, replacing an earlier one; other keys are untouched.
#[verifier::external_body]
fn fx_insert(m: &mut NameTable, k: u64, v: String)
    ensures
        fx_entries(*final(m)) == fx_entries(*old(m)).insert(k, v@),
{
    m.insert(k, v);
}

/// A store of entity names keyed by their hash.
pub trait EntityMappingPersistor {
    spec fn mapping(&self) -> Map<u64, Seq<char>>;

    /// The name stored under `hash`, if any.
    fn get_entity(&self, hash: u64) -> (r: Option<String>)
        ensures
            match r {
                Some(s) => self.mapping().contains_key(hash) && self.mapping()[hash] == s@,
                None => !self.mapping().contains_key(hash),
            };

    /// Stores `entity` under `hash`; the last write for a hash wins.
    fn put_data(&mut self, hash: u64, entity: String)
        ensures
            final(self).mapping() == old(self).mapping().insert(hash, entity@);

    /// Whether a name is stored under `hash`.
    fn contains(&self, hash: u64) -> (r: bool)
        ensures
            r == self.mapping().contains_key(hash);
}

/// An in-memory identifier map. Shared use across threads goes through
/// `SharedEntityMapping`, which guards it with a reader-writer lock.
pub struct InMemoryEntityMappingPersistor {
    entity_mappings: NameTable,
}

impl InMemoryEntityMappingPersistor {
    pub closed spec fn view(&self) -> Map<u64, Seq<char>> {
        fx_entries(self.entity_mappings)
    }

    /// An empty map.
    pub fn new() -> (r: Self)
        ensures
            r.view().dom().is_empty(),
    {
        InMemoryEntityMappingPersistor { entity_mappings: fx_new() }
    }
}

impl Default for InMemoryEntityMappingPersistor {
    /// An empty map.
    fn default() -> (r: Self)
        ensures
            r.view().dom().is_empty(),
    {
        Self::new()
    }
}

impl EntityMappingPersistor for InMemoryEntityMappingPersistor {
    open spec fn mapping(&self) -> Map<u64, Seq<char>> {
        self.view()
    }

    fn get_entity(&self, hash: u64) -> (r: Option<String>) {
        match fx_get(&self.entity_mappings, hash) {
            Some(s) => Some(s.clone()),
            None => None,
        }
    }

    fn put_data(&mut self, hash: u64, entity: String) {
        fx_insert(&mut self.entity_mappings, hash, entity);
    }

    fn contains(&self, hash: u64) -> (r: bool) {
        fx_contains_key(&self.entity_mappings, hash)
    }
}

/// The lock's predicate: any table may stand behind it.
pub struct AnyTable {}

impl RwLockPredicate<InMemoryEntityMappingPersistor> for AnyTable {
    open spec fn inv(self, v: InMemoryEntityMappingPersistor) -> bool {
        true
    }
}

/// The identifier map for shared use: one table behind a reader-writer lock.
/// Lookups hold the lock shared, so many proceed together; a write holds it
/// exclusively for the one insertion, so no reader sees a write half done.
/// Other callers may write between two calls, so what a lookup returns is
/// stated of the table behind the lock, `InMemoryEntityMappingPersistor`.
pub struct SharedEntityMapping {
    entity_mappings: RwLock<InMemoryEntityMappingPersistor, AnyTable>,
}

impl SharedEntityMapping {
    /// A shared map with an empty table.
    pub fn new() -> (r: Self) {
        SharedEntityMapping { entity_mappings: RwLock::new(InMemoryEntityMappingPersistor::new(), Ghost(AnyTable {})) }
    }

    /// The name stored under `hash` in the table as it stood while the
    /// shared lock was held.
    pub fn get_entity(&self, hash: u64) -> (r: Option<String>) {
        let handle = self.entity_mappings.acquire_read();
        let r = handle.borrow().get_entity(hash);
        handle.release_read();
        r
    }

    /// Stores `entity` under `hash` while holding the lock exclusively.
    pub fn put_data(&self, hash: u64, entity: String) {
        let (mut table, handle) = self.entity_mappings.acquire_write();
        table.put_data(hash, entity);
        handle.release_write(table);
    }

    /// Whether a name is stored under `hash` in the table as it stood while
    /// the shared lock was held.
    pub fn contains(&self, hash: u64) -> (r: bool) {
        let handle = self.entity_mappings.acquire_read();
        let r = handle.borrow().contains(hash);
        handle.release_read();
        r
    }
}

/// After a name is stored under a hash, the hash is present and looks up to
/// that name; every other hash keeps what it had.
pub proof fn lemma_put_then_lookup(
    before: Map<u64, Seq<char>>,
    after: Map<u64, Seq<char>>,
    hash: u64,
    entity: Seq<char>,
    other: u64,
)
    requires
        after == before.insert(hash, entity),
    ensures
        after.contains_key(hash),
        after[hash] == entity,
        other != hash ==> (after.contains_key(other) == before.contains_key(other)),
        other != hash && before.contains_key(other) ==> after[other] == before[other],
{
}

} // verus!
