//! The FNV-hashed maps the renderer keys its state by, and the operations the
//! library performs on them.  Each operation below is a single call of the
//! standard `HashMap` method on a map built with `fnv::FnvBuildHasher`; the
//! contracts state what the standard library documents for that method.
use vstd::prelude::*;
use fnv::FnvHasher;
use fnv::FnvHashMap;
use fnv::FnvHashSet;
use std::hash::BuildHasherDefault;

verus! {

#[verifier::external_type_specification]
#[verifier::external_body]
pub struct ExFnvHasher(FnvHasher);

#[verifier::external_type_specification]
#[verifier::external_body]
#[verifier::reject_recursive_types(H)]
pub struct ExBuildHasherDefault<H>(BuildHasherDefault<H>);

/// Integer key types of the FNV maps (their `Eq` is integer equality).
pub trait IntKey: Eq + std::hash::Hash {}

impl IntKey for u32 {}

impl IntKey for usize {}

impl IntKey for (u32, u32) {}

/// `FnvHashMap::default()`: an empty map.
#[verifier::external_body]
pub(crate) fn fnv_map_new<K: IntKey, V>() -> (m: FnvHashMap<K, V>)
    ensures
        m@.dom() == Set::<K>::empty(),
{
    FnvHashMap::default()
}

/// `HashMap::get` on an FNV map with an integer key.
#[verifier::external_body]
pub(crate) fn fnv_map_get<'a, K: IntKey, V>(m: &'a FnvHashMap<K, V>, k: K) -> (r: Option<&'a V>)
    ensures
        match r {
            Some(v) => m@.contains_key(k) && *v == m@[k],
            None => !m@.contains_key(k),
        },
{
    m.get(&k)
}

/// `HashMap::contains_key` on an FNV map with an integer key.
#[verifier::external_body]
pub(crate) fn fnv_map_contains<K: IntKey, V>(m: &FnvHashMap<K, V>, k: K) -> (r: bool)
    ensures
        r == m@.contains_key(k),
{
    m.contains_key(&k)
}

/// `HashMap::insert` on an FNV map with an integer key; returns the value it replaced.
#[verifier::external_body]
pub(crate) fn fnv_map_insert<K: IntKey, V>(m: &mut FnvHashMap<K, V>, k: K, v: V) -> (r: Option<V>)
    ensures
        final(m)@ == old(m)@.insert(k, v),
        match r {
            Some(old_v) => old(m)@.contains_key(k) && old_v == old(m)@[k],
            None => !old(m)@.contains_key(k),
        },
{
    m.insert(k, v)
}

/// `HashMap::remove` on an FNV map with an integer key; returns the removed value.
#[verifier::external_body]
pub(crate) fn fnv_map_remove<K: IntKey, V>(m: &mut FnvHashMap<K, V>, k: K) -> (r: Option<V>)
    ensures
        final(m)@ == old(m)@.remove(k),
        match r {
            Some(v) => old(m)@.contains_key(k) && v == old(m)@[k],
            None => !old(m)@.contains_key(k),
        },
{
    m.remove(&k)
}

/// The keys of an FNV map (`HashMap::keys`, collected), each once, in the map's
/// iteration order.
#[verifier::external_body]
pub(crate) fn fnv_map_keys<K: IntKey + Copy, V>(m: &FnvHashMap<K, V>) -> (r: Vec<K>)
    ensures
        r@.no_duplicates(),
        forall|k: K| #[trigger] r@.contains(k) <==> m@.contains_key(k),
{
    m.keys().copied().collect()
}

/// `HashMap::clear` on an FNV map.
#[verifier::external_body]
pub(crate) fn fnv_map_clear<K: IntKey, V>(m: &mut FnvHashMap<K, V>)
    ensures
        final(m)@.dom() == Set::<K>::empty(),
{
    m.clear()
}

/// What a name-keyed FNV map holds, keyed by the characters of each name.
pub uninterp spec fn name_index(m: FnvHashMap<String, u32>) -> Map<Seq<char>, u32>;

/// `FnvHashMap::default()` for a map from names to `u32` values.
#[verifier::external_body]
pub(crate) fn name_map_new() -> (m: FnvHashMap<String, u32>)
    ensures
        name_index(m).dom() == Set::<Seq<char>>::empty(),
{
    FnvHashMap::default()
}

/// `HashMap::insert` on a name-keyed FNV map.
#[verifier::external_body]
pub(crate) fn name_map_insert(m: &mut FnvHashMap<String, u32>, k: String, v: u32)
    ensures
        name_index(*final(m)) == name_index(*old(m)).insert(k@, v),
{
    m.insert(k, v);
}

/// `HashMap::get` on a name-keyed FNV map (lookup by string contents).
#[verifier::external_body]
pub(crate) fn name_map_get(m: &FnvHashMap<String, u32>, k: &str) -> (r: Option<u32>)
    ensures
        match r {
            Some(v) => name_index(*m).contains_key(k@) && v == name_index(*m)[k@],
            None => !name_index(*m).contains_key(k@),
        },
{
    m.get(k).copied()
}

/// `FnvHashSet::default()`: an empty set.
#[verifier::external_body]
pub(crate) fn fnv_set_new<K: IntKey>() -> (s: FnvHashSet<K>)
    ensures
        s@ == Set::<K>::empty(),
{
    FnvHashSet::default()
}

/// `HashSet::contains` on an FNV set with an integer key.
#[verifier::external_body]
pub(crate) fn fnv_set_contains<K: IntKey>(s: &FnvHashSet<K>, k: &K) -> (r: bool)
    ensures
        r == s@.contains(*k),
{
    s.contains(k)
}

/// `HashSet::insert` on an FNV set with an integer key; true if `k` was not in the set.
#[verifier::external_body]
pub(crate) fn fnv_set_insert<K: IntKey>(s: &mut FnvHashSet<K>, k: K) -> (r: bool)
    ensures
        final(s)@ == old(s)@.insert(k),
        r == !old(s)@.contains(k),
{
    s.insert(k)
}

/// `HashSet::remove` on an FNV set with an integer key; true if `k` was in the set.
#[verifier::external_body]
pub(crate) fn fnv_set_remove<K: IntKey>(s: &mut FnvHashSet<K>, k: &K) -> (r: bool)
    ensures
        final(s)@ == old(s)@.remove(*k),
        r == old(s)@.contains(*k),
{
    s.remove(k)
}

/// `HashSet::clear` on an FNV set.
#[verifier::external_body]
pub(crate) fn fnv_set_clear<K: IntKey>(s: &mut FnvHashSet<K>)
    ensures
        final(s)@ == Set::<K>::empty(),
{
    s.clear()
}

/// What a name-keyed FNV set holds, as the characters of each name.
pub uninterp spec fn name_set(s: FnvHashSet<String>) -> Set<Seq<char>>;

/// `FnvHashSet::default()` for a set of names.
#[verifier::external_body]
pub(crate) fn name_set_new() -> (s: FnvHashSet<String>)
    ensures
        name_set(s) == Set::<Seq<char>>::empty(),
{
    FnvHashSet::default()
}

/// `HashSet::insert` on a set of names.
#[verifier::external_body]
pub(crate) fn name_set_insert(s: &mut FnvHashSet<String>, k: String)
    ensures
        name_set(*final(s)) == name_set(*old(s)).insert(k@),
{
    s.insert(k);
}

/// `HashSet::len` on an FNV set: the number of elements.
#[verifier::external_body]
pub(crate) fn fnv_set_len<K: IntKey>(s: &FnvHashSet<K>) -> (r: usize)
    ensures
        r == s@.len(),
{
    s.len()
}

} // verus!
