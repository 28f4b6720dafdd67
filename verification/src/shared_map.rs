//! The lock-free map of the `lockfree` crate, as the registry of interests
//! and the table of open connections use it.
use vstd::prelude::*;
use crate::reactor::InterestSet;

verus! {

/// `lockfree::map::Map`, opaque to proofs: what it holds is given by the
/// names below, one per instantiation.
#[verifier::external_type_specification]
#[verifier::external_body]
#[verifier::reject_recursive_types(K)]
#[verifier::reject_recursive_types(V)]
#[verifier::reject_recursive_types(H)]
pub struct ExLockfreeMap<K, V, H>(lockfree::map::Map<K, V, H>);

/// The entries of a lock-free map from tokens to interests.
pub uninterp spec fn interest_entries(m: lockfree::map::Map<usize, InterestSet>) -> Map<
    usize,
    InterestSet,
>;

/// The entries of a lock-free map from connection ids to tokens.
pub uninterp spec fn connection_entries(m: lockfree::map::Map<u64, usize>) -> Map<u64, usize>;

/// `lockfree::map::Map::new`: a new map holds no entry.
#[verifier::external_body]
pub(crate) fn interest_map_new() -> (fresh: lockfree::map::Map<usize, InterestSet>)
    ensures
        interest_entries(fresh) =~= Map::empty(),
{
    lockfree::map::Map::new()
}

/// `lockfree::map::Map::insert`: the key is mapped to the value, replacing
/// any earlier entry for it; other entries stay.
#[verifier::external_body]
pub(crate) fn interest_map_insert(
    m: &mut lockfree::map::Map<usize, InterestSet>,
    key: usize,
    value: InterestSet,
)
    ensures
        interest_entries(*final(m)) == interest_entries(*old(m)).insert(key, value),
{
    m.insert(key, value);
}

/// `lockfree::map::Map::remove`: the entry for the key, if any, leaves the
/// map; the result tells whether there was one.
#[verifier::external_body]
pub(crate) fn interest_map_remove(m: &mut lockfree::map::Map<usize, InterestSet>, key: usize) -> (found: bool)
    ensures
        interest_entries(*final(m)) == interest_entries(*old(m)).remove(key),
        found == interest_entries(*old(m)).contains_key(key),
{
    m.remove(&key).is_some()
}

/// `lockfree::map::Map::get`: the value stored for the key, if any.
#[verifier::external_body]
pub(crate) fn interest_map_get(m: &lockfree::map::Map<usize, InterestSet>, key: usize) -> (r: Option<
    InterestSet,
>)
    ensures
        r == (if interest_entries(*m).contains_key(key) {
            Some(interest_entries(*m)[key])
        } else {
            None
        }),
{
    match m.get(&key) {
        Some(entry) => Some(*entry.val()),
        None => None,
    }
}

/// `lockfree::map::Map::iter`, counted: the number of entries of the map.
#[verifier::external_body]
pub(crate) fn interest_map_len(m: &lockfree::map::Map<usize, InterestSet>) -> (n: usize)
    ensures
        n == interest_entries(*m).len(),
{
    m.iter().count()
}

/// `lockfree::map::Map::new`: a new map holds no entry.
#[verifier::external_body]
pub(crate) fn connection_map_new() -> (fresh: lockfree::map::Map<u64, usize>)
    ensures
        connection_entries(fresh) =~= Map::empty(),
{
    lockfree::map::Map::new()
}

/// `lockfree::map::Map::insert`: the key is mapped to the value, replacing
/// any earlier entry for it; other entries stay.
#[verifier::external_body]
pub(crate) fn connection_map_insert(m: &mut lockfree::map::Map<u64, usize>, key: u64, value: usize)
    ensures
        connection_entries(*final(m)) == connection_entries(*old(m)).insert(key, value),
{
    m.insert(key, value);
}

/// `lockfree::map::Map::remove`: the entry for the key, if any, leaves the
/// map and its value is returned.
#[verifier::external_body]
pub(crate) fn connection_map_remove(m: &mut lockfree::map::Map<u64, usize>, key: u64) -> (r: Option<
    usize,
>)
    ensures
        connection_entries(*final(m)) == connection_entries(*old(m)).remove(key),
        r == (if connection_entries(*old(m)).contains_key(key) {
            Some(connection_entries(*old(m))[key])
        } else {
            None
        }),
{
    match m.remove(&key) {
        Some(removed) => Some(*removed.val()),
        None => None,
    }
}

/// `lockfree::map::Map::get`: the value stored for the key, if any.
#[verifier::external_body]
pub(crate) fn connection_map_get(m: &lockfree::map::Map<u64, usize>, key: u64) -> (r: Option<usize>)
    ensures
        r == (if connection_entries(*m).contains_key(key) {
            Some(connection_entries(*m)[key])
        } else {
            None
        }),
{
    match m.get(&key) {
        Some(entry) => Some(*entry.val()),
        None => None,
    }
}

/// `lockfree::map::Map::iter`, each entry mapped to its key: every key of
/// the map, each once, in an order the map does not fix.
#[verifier::external_body]
pub(crate) fn connection_map_keys(m: &lockfree::map::Map<u64, usize>) -> (keys: Vec<u64>)
    ensures
        keys@.no_duplicates(),
        keys@.to_set() == connection_entries(*m).dom(),
{
    m.iter().map(|entry| *entry.key()).collect()
}

} // verus!
