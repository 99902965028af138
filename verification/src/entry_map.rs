use vstd::prelude::*;

verus! {

// The hash-backed name index of the archive: an insertion-ordered map from
// entry names to their positions in the entry list. The order itself lives
// in the verified entry list; the index only answers name lookups, so its
// model is a plain map from name text to position.

#[verifier::external_type_specification]
#[verifier::external_body]
#[verifier::reject_recursive_types(K)]
#[verifier::reject_recursive_types(V)]
#[verifier::reject_recursive_types(S)]
pub struct ExIndexMap<K, V, S>(indexmap::IndexMap<K, V, S>);

/// The concrete index the archive keeps.
pub type NameIndex = indexmap::IndexMap<String, usize, std::hash::RandomState>;

/// What a name index holds: each stored name's text mapped to its stored
/// position.
pub uninterp spec fn name_positions(m: NameIndex) -> Map<Seq<char>, int>;

/// The model of an index that holds nothing.
pub open spec fn no_positions() -> Map<Seq<char>, int> {
    Map::empty()
}

/// Relies on indexmap::IndexMap::new: a fresh map holds nothing.
#[verifier::external_body]
pub(crate) fn index_new() -> (r: NameIndex)
    ensures
        name_positions(r) == no_positions(),
{
    indexmap::IndexMap::new()
}

/// Relies on indexmap::IndexMap::insert: an equal key's value is replaced,
/// a new key is added; either way the key now maps to the given value.
#[verifier::external_body]
pub(crate) fn index_insert(m: &mut NameIndex, key: String, value: usize)
    ensures
        name_positions(*final(m)) == name_positions(*old(m)).insert(key@, value as int),
{
    m.insert(key, value);
}

/// Relies on indexmap::IndexMap::get: the value stored under an equal key,
/// or nothing.
#[verifier::external_body]
pub(crate) fn index_get(m: &NameIndex, key: &str) -> (r: Option<usize>)
    ensures
        r == (if name_positions(*m).contains_key(key@) {
            Some(name_positions(*m)[key@] as usize)
        } else {
            None::<usize>
        }),
{
    m.get(key).copied()
}

} // verus!
