//! Trusted boundary around the sharded concurrent maps of the `dashmap`
//! crate.
//!
//! Each namespace of the store is one sharded map; a lookup or insert takes a
//! short-lived lock scoped to the shard of the touched key.  The maps are
//! opaque to the verifier, so their contents are given names
//! ([`scalar_contents`], [`hash_contents`], [`set_contents`]) and every map
//! operation the store calls goes through a wrapper whose contract states,
//! over those names, what the `dashmap` source shows the operation does.

use vstd::prelude::*;

use crate::resp::clone_frame;
use crate::resp::FrameView;
use crate::resp::RespFrame;
use dashmap::DashMap;
use dashmap::DashSet;

verus! {

#[verifier::external_type_specification]
#[verifier::external_body]
#[verifier::reject_recursive_types(K)]
#[verifier::reject_recursive_types(V)]
#[verifier::reject_recursive_types(S)]
pub struct ExDashMap<K, V, S>(DashMap<K, V, S>);

#[verifier::external_type_specification]
#[verifier::external_body]
#[verifier::reject_recursive_types(K)]
#[verifier::reject_recursive_types(S)]
pub struct ExDashSet<K, S>(DashSet<K, S>);

/// The scalar namespace: a sharded map from key to stored frame.
pub type ScalarMap = DashMap<String, RespFrame>;

/// The hash namespace: a sharded map from key to an inner field/value map.
pub type HashMapOfMaps = DashMap<String, DashMap<String, RespFrame>>;

/// The set namespace: a sharded map from key to a set of members.
pub type SetMapOfSets = DashMap<String, DashSet<String>>;

/// What a scalar map holds: key text to the model of the stored frame.
pub uninterp spec fn scalar_contents(m: ScalarMap) -> Map<Seq<char>, FrameView>;

/// What a hash-of-hash map holds: key text to an inner field-to-value map.
pub uninterp spec fn hash_contents(m: HashMapOfMaps) -> Map<Seq<char>, Map<Seq<char>, FrameView>>;

/// What a key-of-set map holds: key text to the set of member texts.
pub uninterp spec fn set_contents(m: SetMapOfSets) -> Map<Seq<char>, Set<Seq<char>>>;

/// Relies on `DashMap::get`: returns the value stored at the key, if any;
/// the returned copy decouples from the live entry.
#[verifier::external_body]
pub(crate) fn scalar_map_get(m: &ScalarMap, key: &str) -> (r: Option<RespFrame>)
    ensures
        r is Some <==> scalar_contents(*m).contains_key(key@),
        r matches Some(f) ==> f@ == scalar_contents(*m)[key@],
{
    match m.get(key) {
        Some(v) => Some(clone_frame(v.value())),
        None => None,
    }
}

/// Relies on `DashMap::insert`: maps the key to the value, replacing any
/// previous one.
#[verifier::external_body]
pub(crate) fn scalar_map_insert(m: &mut ScalarMap, key: String, value: RespFrame)
    ensures
        scalar_contents(*final(m)) == scalar_contents(*old(m)).insert(key@, value@),
{
    m.insert(key, value);
}

/// Relies on `DashMap::get`, twice: returns the value under the field of the
/// hash at the key, if both exist.
#[verifier::external_body]
pub(crate) fn hash_map_get(
    m: &HashMapOfMaps,
    key: &str,
    field: &str,
) -> (r: Option<RespFrame>)
    ensures
        r is Some <==> (hash_contents(*m).contains_key(key@)
            && hash_contents(*m)[key@].contains_key(field@)),
        r matches Some(f) ==> f@ == hash_contents(*m)[key@][field@],
{
    match m.get(key) {
        Some(h) => match h.value().get(field) {
            Some(v) => Some(clone_frame(v.value())),
            None => None,
        },
        None => None,
    }
}

/// Relies on `DashMap::entry` with `Entry::or_default` and `DashMap::insert`:
/// creates the hash at the key if absent, then upserts the field in it.
#[verifier::external_body]
pub(crate) fn hash_map_set(
    m: &mut HashMapOfMaps,
    key: String,
    field: String,
    value: RespFrame,
)
    ensures
        hash_contents(*final(m)) == hash_contents(*old(m)).insert(
            key@,
            (if hash_contents(*old(m)).contains_key(key@) {
                hash_contents(*old(m))[key@]
            } else {
                Map::<Seq<char>, FrameView>::empty()
            }).insert(field@, value@),
        ),
{
    let h = m.entry(key).or_default();
    h.insert(field, value);
}

/// Relies on `DashMap::get` and `DashMap::iter`: returns every field/value
/// pair of the hash at the key as a point-in-time copy, or nothing when the
/// key is absent.  The pair order is whatever the shard iteration yields.
#[verifier::external_body]
pub(crate) fn hash_map_snapshot(
    m: &HashMapOfMaps,
    key: &str,
) -> (r: Option<Vec<(String, RespFrame)>>)
    ensures
        r is Some <==> hash_contents(*m).contains_key(key@),
        r matches Some(v) ==> {
            let h = hash_contents(*m)[key@];
            &&& forall|i: int|
                #![trigger v@[i]]
                0 <= i < v@.len() ==> h.contains_key(v@[i].0@) && v@[i].1@ == h[v@[i].0@]
            &&& forall|f: Seq<char>|
                h.contains_key(f) ==> exists|i: int| 0 <= i < v@.len() && #[trigger] v@[i].0@ == f
            &&& forall|i: int, j: int|
                #![trigger v@[i], v@[j]]
                0 <= i < j < v@.len() ==> v@[i].0@ != v@[j].0@
        },
{
    match m.get(key) {
        Some(h) => Some(
            h.value().iter().map(|e| (e.key().clone(), clone_frame(e.value()))).collect(),
        ),
        None => None,
    }
}

/// Relies on `DashMap::entry` with `Entry::or_default`: creates an empty set
/// at the key if none is there, and keeps the present one otherwise.
#[verifier::external_body]
pub(crate) fn set_map_ensure(m: &mut SetMapOfSets, key: &str)
    ensures
        set_contents(*final(m)) == set_contents(*old(m)).insert(
            key@,
            (if set_contents(*old(m)).contains_key(key@) {
                set_contents(*old(m))[key@]
            } else {
                Set::<Seq<char>>::empty()
            }),
        ),
{
    m.entry(key.to_owned()).or_default();
}

/// Relies on `DashMap::entry` with `Entry::or_default` and `DashSet::insert`:
/// creates the set at the key if absent, adds the member to it, and tells
/// whether the member was not already there.
#[verifier::external_body]
pub(crate) fn set_map_add(
    m: &mut SetMapOfSets,
    key: &str,
    member: &str,
) -> (newly: bool)
    ensures
        newly == !(set_contents(*old(m)).contains_key(key@)
            && set_contents(*old(m))[key@].contains(member@)),
        set_contents(*final(m)) == set_contents(*old(m)).insert(
            key@,
            (if set_contents(*old(m)).contains_key(key@) {
                set_contents(*old(m))[key@]
            } else {
                Set::<Seq<char>>::empty()
            }).insert(member@),
        ),
{
    let s = m.entry(key.to_owned()).or_default();
    s.insert(member.to_owned())
}

/// Relies on `DashMap::get` and `DashSet::contains`: tells whether the set at
/// the key exists and holds the member.
#[verifier::external_body]
pub(crate) fn set_map_contains(
    m: &SetMapOfSets,
    key: &str,
    member: &str,
) -> (r: bool)
    ensures
        r == (set_contents(*m).contains_key(key@) && set_contents(*m)[key@].contains(member@)),
{
    match m.get(key) {
        Some(s) => s.contains(member),
        None => false,
    }
}

/// Relies on `DashMap::get` and `DashSet::iter`: returns every member of the
/// set at the key as a point-in-time copy, or nothing when the key is absent.
/// The member order is whatever the shard iteration yields.
#[verifier::external_body]
pub(crate) fn set_map_snapshot(
    m: &SetMapOfSets,
    key: &str,
) -> (r: Option<Vec<String>>)
    ensures
        r is Some <==> set_contents(*m).contains_key(key@),
        r matches Some(v) ==> {
            let s = set_contents(*m)[key@];
            &&& forall|i: int| #![trigger v@[i]] 0 <= i < v@.len() ==> s.contains(v@[i]@)
            &&& forall|mem: Seq<char>|
                s.contains(mem) ==> exists|i: int| 0 <= i < v@.len() && #[trigger] v@[i]@ == mem
            &&& forall|i: int, j: int|
                #![trigger v@[i], v@[j]]
                0 <= i < j < v@.len() ==> v@[i]@ != v@[j]@
        },
{
    match m.get(key) {
        Some(s) => Some(s.iter().map(|e| e.key().clone()).collect()),
        None => None,
    }
}

} // verus!
