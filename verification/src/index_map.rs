//! Trusted boundary around `indexmap::IndexMap`, the insertion-order
//! preserving map that holds a toolset's per-plugin version lists.
//!
//! The map is opaque to the verifier; its contents and key order are
//! named by two uninterpreted functions, and each method used by the
//! library gets a wrapper whose contract states what the crate's own
//! documentation promises of that method.
use vstd::prelude::*;

use crate::tool_version_list::{ToolVersionList, ToolVersionListV};

verus! {

/// `indexmap::IndexMap`, declared so it can stand in fields.
#[verifier::external_type_specification]
#[verifier::external_body]
#[verifier::reject_recursive_types(K)]
#[verifier::reject_recursive_types(V)]
#[verifier::reject_recursive_types(S)]
pub struct ExIndexMap<K, V, S>(indexmap::IndexMap<K, V, S>);

/// The concrete map type a toolset holds: plugin name to version list.
pub type PluginMap = indexmap::IndexMap<
    String,
    ToolVersionList,
    std::collections::hash_map::RandomState,
>;

/// The entries an index map holds, keyed by the key's characters.
pub uninterp spec fn map_entries(m: PluginMap) -> Map<Seq<char>, ToolVersionListV>;

/// The keys of an index map, in insertion order.
pub uninterp spec fn map_order(m: PluginMap) -> Seq<Seq<char>>;

/// The empty entry map.
pub open spec fn no_entries() -> Map<Seq<char>, ToolVersionListV> {
    Map::empty()
}

/// Relies on `IndexMap::new`: an empty map.
#[verifier::external_body]
pub(crate) fn index_map_new() -> (r: PluginMap)
    ensures
        map_entries(r) == no_entries(),
        map_order(r) == Seq::<Seq<char>>::empty(),
{
    indexmap::IndexMap::new()
}

/// Relies on `IndexMap::insert`: an existing key keeps its place in the
/// order and its value is replaced; a new key is appended last.
#[verifier::external_body]
pub(crate) fn index_map_insert(m: &mut PluginMap, key: String, value: ToolVersionList)
    ensures
        map_entries(*final(m)) == map_entries(*old(m)).insert(key@, value@),
        map_order(*final(m)) == if map_entries(*old(m)).contains_key(key@) {
            map_order(*old(m))
        } else {
            map_order(*old(m)).push(key@)
        },
{
    m.insert(key, value);
}

/// Relies on `IndexMap::get`: the value stored under an equal key.
#[verifier::external_body]
pub(crate) fn index_map_get<'a>(m: &'a PluginMap, key: &String) -> (r: Option<
    &'a ToolVersionList,
>)
    ensures
        match r {
            Some(v) => map_entries(*m).contains_key(key@) && v@ == map_entries(*m)[key@],
            None => !map_entries(*m).contains_key(key@),
        },
{
    m.get(key)
}

/// Relies on `IndexMap::iter`: all entries, in insertion order, with
/// each key listed once; the listed keys are exactly the map's domain.
#[verifier::external_body]
pub(crate) fn index_map_pairs(m: &PluginMap) -> (r: Vec<(String, ToolVersionList)>)
    ensures
        r@.len() == map_order(*m).len(),
        forall|i: int|
            0 <= i < r@.len() ==> #[trigger] r@[i].0@ == map_order(*m)[i] && map_entries(
                *m,
            ).contains_key(r@[i].0@) && r@[i].1@ == map_entries(*m)[r@[i].0@],
        forall|i: int, j: int| 0 <= i < j < r@.len() ==> r@[i].0@ != r@[j].0@,
        forall|k: Seq<char>|
            #[trigger] map_entries(*m).contains_key(k) ==> exists|i: int|
                0 <= i < r@.len() && r@[i].0@ == k,
{
    m.iter().map(|(k, v)| (k.clone(), v.clone())).collect()
}

} // verus!
