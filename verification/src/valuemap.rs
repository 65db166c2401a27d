//! Trusted boundary to `indexmap::IndexMap`, which holds the profile,
//! override, and environment mappings of a render context. The contents of a
//! map are named as a `Map` from key characters to value characters, and the
//! few operations the engine needs are wrapped with contracts over that name.

use vstd::prelude::*;

verus! {

#[verifier::external_type_specification]
#[verifier::external_body]
#[verifier::reject_recursive_types(K)]
#[verifier::reject_recursive_types(V)]
#[verifier::reject_recursive_types(S)]
pub struct ExIndexMap<K, V, S>(indexmap::IndexMap<K, V, S>);

/// What an `IndexMap<String, String>` holds: the mapping from key character
/// sequences to value character sequences.
pub uninterp spec fn map_entries(
    m: indexmap::IndexMap<String, String>,
) -> Map<Seq<char>, Seq<char>>;

/// Relies on `IndexMap::new`: a new map is empty.
#[verifier::external_body]
pub fn im_new() -> (r: indexmap::IndexMap<String, String>)
    ensures
        forall|k: Seq<char>| !map_entries(r).contains_key(k),
{
    indexmap::IndexMap::new()
}

/// Relies on `IndexMap::insert`: the pair is added to the map, replacing the
/// value of an equal key if one is present.
#[verifier::external_body]
pub fn im_insert(m: &mut indexmap::IndexMap<String, String>, key: String, value: String)
    ensures
        map_entries(*final(m)) == map_entries(*old(m)).insert(key@, value@),
{
    m.insert(key, value);
}

/// Relies on `IndexMap::get`: the value stored under an equal key, if any.
#[verifier::external_body]
pub fn im_get<'a>(m: &'a indexmap::IndexMap<String, String>, key: &str) -> (r: Option<
    &'a String,
>)
    ensures
        r is Some <==> map_entries(*m).contains_key(key@),
        r matches Some(v) ==> v@ == map_entries(*m)[key@],
{
    m.get(key)
}

} // verus!
