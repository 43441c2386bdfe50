//! The vector-backed maps of `linear_map`, as the library uses them: span
//! metadata (kept in insertion order), event counters, and open spans.
use vstd::prelude::*;

use linear_map::LinearMap;

use crate::counters::{no_counts, CounterValue};
use crate::graph::GraphNode;

verus! {

#[verifier::external_type_specification]
#[verifier::external_body]
#[verifier::reject_recursive_types(K)]
#[verifier::reject_recursive_types(V)]
pub struct ExLinearMap<K, V>(LinearMap<K, V>);

/// The entries of a metadata map, in storage order.
pub uninterp spec fn metadata_entries(m: LinearMap<String, String>) -> Seq<(Seq<char>, Seq<char>)>;

/// The counters of an event map, by signature.
pub uninterp spec fn counter_entries(m: LinearMap<String, CounterValue>) -> Map<Seq<char>, CounterValue>;

/// The open spans, by identifier.
pub uninterp spec fn span_nodes(m: LinearMap<u64, GraphNode>) -> Map<u64, GraphNode>;

/// The map without spans.
pub open spec fn no_spans() -> Map<u64, GraphNode> {
    Map::empty()
}

/// Index of the first entry with key `k`, or the length where there is none.
pub open spec fn key_index(s: Seq<(Seq<char>, Seq<char>)>, k: Seq<char>) -> nat
    decreases s.len(),
{
    if s.len() == 0 {
        0
    } else if s[0].0 == k {
        0
    } else {
        1 + key_index(s.drop_first(), k)
    }
}

/// What `LinearMap::insert` does to entries kept in order: the value of an
/// existing key is replaced in place, a new key is appended.
pub open spec fn entries_insert(s: Seq<(Seq<char>, Seq<char>)>, k: Seq<char>, v: Seq<char>) -> Seq<
    (Seq<char>, Seq<char>),
> {
    let i = key_index(s, k);
    if i < s.len() {
        s.update(i as int, (s[i as int].0, v))
    } else {
        s.push((k, v))
    }
}

/// Relies on `LinearMap::new`: an empty map.
#[verifier::external_body]
pub(crate) fn metadata_new() -> (r: LinearMap<String, String>)
    ensures
        metadata_entries(r).len() == 0,
{
    LinearMap::new()
}

/// Relies on `LinearMap::insert`, which finds the first entry whose key is
/// equal (for strings: the same characters) and replaces its value, or else
/// pushes the new entry at the end of its vector.
#[verifier::external_body]
pub(crate) fn metadata_insert(m: &mut LinearMap<String, String>, k: String, v: String)
    ensures
        metadata_entries(*final(m)) == entries_insert(metadata_entries(*old(m)), k@, v@),
{
    m.insert(k, v);
}

/// Relies on `LinearMap::iter`, which walks its vector in order.
#[verifier::external_body]
pub(crate) fn metadata_list(m: &LinearMap<String, String>) -> (r: Vec<(String, String)>)
    ensures
        r@.map_values(|e: (String, String)| (e.0@, e.1@)) == metadata_entries(*m),
{
    m.iter().map(|(k, v)| (k.clone(), v.clone())).collect()
}

/// Relies on `LinearMap::new`: an empty map.
#[verifier::external_body]
pub(crate) fn counters_new() -> (r: LinearMap<String, CounterValue>)
    ensures
        counter_entries(r) == no_counts(),
{
    LinearMap::new()
}

/// Relies on `LinearMap::get`: the value under an equal key, if any.
#[verifier::external_body]
pub(crate) fn counters_get(m: &LinearMap<String, CounterValue>, k: &str) -> (r: Option<CounterValue>)
    ensures
        r == (if counter_entries(*m).contains_key(k@) {
            Some(counter_entries(*m)[k@])
        } else {
            None
        }),
{
    m.get(k).copied()
}

/// Relies on `LinearMap::insert`: the key then holds the value, the other
/// keys keep theirs.
#[verifier::external_body]
pub(crate) fn counters_insert(m: &mut LinearMap<String, CounterValue>, k: String, v: CounterValue)
    ensures
        counter_entries(*final(m)) == counter_entries(*old(m)).insert(k@, v),
{
    m.insert(k, v);
}

/// Relies on `LinearMap::clear`: no entries are left.
#[verifier::external_body]
pub(crate) fn counters_clear(m: &mut LinearMap<String, CounterValue>)
    ensures
        counter_entries(*final(m)) == no_counts(),
{
    m.clear();
}

/// Relies on `LinearMap::iter`: each entry once; the keys of a `LinearMap` are
/// distinct, since `insert` replaces the value of an equal key.
#[verifier::external_body]
pub(crate) fn counters_list(m: &LinearMap<String, CounterValue>) -> (r: Vec<(String, CounterValue)>)
    ensures
        forall|i: int, j: int|
            0 <= i < j < r@.len() ==> #[trigger] r@[i].0@ != #[trigger] r@[j].0@,
        forall|i: int| 0 <= i < r@.len() ==> counter_entries(*m).contains_key(#[trigger] r@[i].0@)
            && counter_entries(*m)[r@[i].0@] == r@[i].1,
        forall|k: Seq<char>| #[trigger]
            counter_entries(*m).contains_key(k) ==> exists|i: int| 0 <= i < r@.len() && r@[i].0@ == k,
{
    m.iter().map(|(k, v)| (k.clone(), *v)).collect()
}

/// Relies on `LinearMap::new`: an empty map.
#[verifier::external_body]
pub(crate) fn spans_new() -> (r: LinearMap<u64, GraphNode>)
    ensures
        span_nodes(r) == no_spans(),
{
    LinearMap::new()
}

/// Relies on `LinearMap::insert`: the key then holds the value, the other
/// keys keep theirs.
#[verifier::external_body]
pub(crate) fn spans_insert(m: &mut LinearMap<u64, GraphNode>, k: u64, v: GraphNode)
    ensures
        span_nodes(*final(m)) == span_nodes(*old(m)).insert(k, v),
{
    m.insert(k, v);
}

/// Relies on `LinearMap::remove`: the value under the key is moved out and the
/// key is gone; the other keys keep their values.
#[verifier::external_body]
pub(crate) fn spans_remove(m: &mut LinearMap<u64, GraphNode>, k: u64) -> (r: Option<GraphNode>)
    ensures
        span_nodes(*final(m)) == span_nodes(*old(m)).remove(k),
        r == (if span_nodes(*old(m)).contains_key(k) {
            Some(span_nodes(*old(m))[k])
        } else {
            None
        }),
{
    m.remove(&k)
}

/// Relies on `LinearMap::contains_key`.
#[verifier::external_body]
pub(crate) fn spans_contains(m: &LinearMap<u64, GraphNode>, k: u64) -> (r: bool)
    ensures
        r == span_nodes(*m).contains_key(k),
{
    m.contains_key(&k)
}

} // verus!
