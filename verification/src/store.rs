//! The state store: one last-observed value per source key.

use dashmap::DashMap;
use vstd::prelude::*;
use vstd::string::*;

verus! {

/// A value observed for a source: a timestamp or a 0/1 indicator.
pub type ObservedValue = u64;

/// `dashmap::DashMap`, carried as an opaque value.
#[verifier::external_type_specification]
#[verifier::external_body]
#[verifier::reject_recursive_types(K)]
#[verifier::reject_recursive_types(V)]
#[verifier::reject_recursive_types(S)]
pub struct ExDashMap<K, V, S>(DashMap<K, V, S>);

/// The entries that a `DashMap<String, u64>` holds, each key by its characters.
pub uninterp spec fn map_entries(m: DashMap<String, u64>) -> Map<Seq<char>, u64>;

/// The entries of a store that has observed nothing.
pub open spec fn no_entries() -> Map<Seq<char>, u64> {
    Map::empty()
}

/// `DashMap::new`: the map it creates holds no entry.
#[verifier::external_body]
fn map_new() -> (created: DashMap<String, u64>)
    ensures
        map_entries(created) == no_entries(),
{
    DashMap::new()
}

/// `DashMap::get`, with the guarded value copied out: the value stored under
/// `key`, or `None` where the map holds no entry for it.
#[verifier::external_body]
fn map_get(m: &DashMap<String, u64>, key: &str) -> (r: Option<u64>)
    ensures
        r == (if map_entries(*m).contains_key(key@) {
            Some(map_entries(*m)[key@])
        } else {
            None
        }),
{
    m.get(key).map(|entry| *entry)
}

/// `DashMap::insert`, called on a map that is borrowed exclusively: afterwards
/// the map holds `value` under `key` and every other entry as before; the
/// result is the value that `key` had, if any.
#[verifier::external_body]
fn map_insert(m: &mut DashMap<String, u64>, key: String, value: u64) -> (r: Option<u64>)
    ensures
        map_entries(*final(m)) == map_entries(*old(m)).insert(key@, value),
        r == (if map_entries(*old(m)).contains_key(key@) {
            Some(map_entries(*old(m))[key@])
        } else {
            None
        }),
{
    m.insert(key, value)
}

/// Maps each source key to the value last observed for it.
///
/// Entries are created by the first `set` for a key and are never removed.
/// Writing takes the store by exclusive borrow, so two writes never
/// overlap: each is complete before the next begins, and a read sees
/// the last completed write.
pub struct StateStore {
    map: DashMap<String, u64>,
}

impl View for StateStore {
    type V = Map<Seq<char>, u64>;

    closed spec fn view(&self) -> Map<Seq<char>, u64> {
        map_entries(self.map)
    }
}

/// What a lookup of `key` in the entries `m` yields.
pub open spec fn lookup(m: Map<Seq<char>, u64>, key: Seq<char>) -> Option<u64> {
    if m.contains_key(key) {
        Some(m[key])
    } else {
        None
    }
}

impl StateStore {
    /// A store with no entry.
    pub fn new() -> (s: Self)
        ensures
            s@ == no_entries(),
    {
        StateStore { map: map_new() }
    }

    /// The value last stored under `key`, if any.
    pub fn get(&self, key: &str) -> (r: Option<ObservedValue>)
        ensures
            r == lookup(self@, key@),
    {
        map_get(&self.map, key)
    }

    /// Stores `value` under `key`, replacing what was there; no other entry changes.
    pub fn set(&mut self, key: &str, value: ObservedValue)
        ensures
            final(self)@ == old(self)@.insert(key@, value),
    {
        let owned = String::from_str(key);
        let _ = map_insert(&mut self.map, owned, value);
    }
}

/// After a `set`, a lookup of the same key yields the value that was set, and
/// a lookup of any other key yields what it did before.
pub proof fn lemma_get_after_set(m: Map<Seq<char>, u64>, key: Seq<char>, value: u64, other: Seq<char>)
    ensures
        lookup(m.insert(key, value), key) == Some(value),
        other != key ==> lookup(m.insert(key, value), other) == lookup(m, other),
{
}

/// Two writes to one key, in either order, leave the store holding exactly
/// one of the two values under that key: the one written last. All other
/// entries are as they were.
pub proof fn lemma_two_sets_keep_last(m: Map<Seq<char>, u64>, key: Seq<char>, a: u64, b: u64)
    ensures
        lookup(m.insert(key, a).insert(key, b), key) == Some(b),
        lookup(m.insert(key, b).insert(key, a), key) == Some(a),
        m.insert(key, a).insert(key, b) == m.insert(key, b),
        m.insert(key, b).insert(key, a) == m.insert(key, a),
{
    assert(m.insert(key, a).insert(key, b) =~= m.insert(key, b));
    assert(m.insert(key, b).insert(key, a) =~= m.insert(key, a));
}

} // verus!
