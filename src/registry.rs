//! The agent registry: a concurrent map from agent id to agent.
use vstd::prelude::*;
use dashmap::DashMap;
use crate::agent::Agent;

verus! {

#[verifier::external_type_specification]
#[verifier::external_body]
#[verifier::reject_recursive_types(K)]
#[verifier::reject_recursive_types(V)]
#[verifier::reject_recursive_types(S)]
pub struct ExDashMap<K, V, S>(DashMap<K, V, S>);

/// The agents a registry holds, by the text of their key.
pub uninterp spec fn registry_of(m: DashMap<String, Agent>) -> Map<Seq<char>, Agent>;

/// Relies on `DashMap::new`: a map with no entries.
#[verifier::external_body]
pub fn registry_new() -> (r: DashMap<String, Agent>)
    ensures
        registry_of(r).dom() == Set::<Seq<char>>::empty(),
{
    DashMap::new()
}

/// Relies on `DashMap::insert`: the key maps to the value afterwards, and
/// every other key keeps its value.
#[verifier::external_body]
pub fn registry_insert(m: &mut DashMap<String, Agent>, key: String, value: Agent)
    ensures
        registry_of(*final(m)) == registry_of(*old(m)).insert(key@, value),
{
    m.insert(key, value);
}

/// Relies on `DashMap::remove`: takes out the value stored under the key,
/// if any; every other key keeps its value.
#[verifier::external_body]
pub fn registry_remove(m: &mut DashMap<String, Agent>, key: &str) -> (r: Option<Agent>)
    ensures
        match r {
            Some(v) => registry_of(*old(m)).contains_key(key@) && v == registry_of(*old(m))[key@],
            None => !registry_of(*old(m)).contains_key(key@),
        },
        registry_of(*final(m)) == registry_of(*old(m)).remove(key@),
{
    m.remove(key).map(|(_, v)| v)
}

/// Relies on `DashMap::contains_key`: whether the key has a value.
#[verifier::external_body]
pub fn registry_contains(m: &DashMap<String, Agent>, key: &str) -> (r: bool)
    ensures
        r == registry_of(*m).contains_key(key@),
{
    m.contains_key(key)
}

/// Relies on `DashMap::len`: the number of keys with a value.
#[verifier::external_body]
pub fn registry_len(m: &DashMap<String, Agent>) -> (r: usize)
    ensures
        r == registry_of(*m).len(),
{
    m.len()
}

/// The texts of a list of keys, as a set.
pub open spec fn key_set(keys: Seq<String>) -> Set<Seq<char>> {
    keys.map_values(|k: String| k@).to_set()
}

/// Relies on `DashMap::iter`: every key with a value appears; the order in
/// which the shards are walked is not fixed.
#[verifier::external_body]
pub fn registry_keys(m: &DashMap<String, Agent>) -> (r: Vec<String>)
    ensures
        key_set(r@) == registry_of(*m).dom(),
{
    m.iter().map(|entry| entry.key().clone()).collect()
}

} // verus!
