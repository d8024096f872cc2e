//! The concurrent backend store.
//!
//! A [`Backend`] holds three independent namespaces, each a sharded map keyed
//! by string: scalars (key to frame), hashes (key to field-to-frame map), and
//! sets (key to set of member strings).  A key in one namespace has no
//! relation to a same-named key in another.  Every operation is specified
//! against the mathematical contents of the namespaces: `Map<Seq<char>, _>`
//! models given by the trusted layer in [`crate::shards`].

use vstd::prelude::*;

use crate::resp::FrameView;
use crate::resp::RespFrame;
use crate::shards::hash_contents;
use crate::shards::hash_map_get;
use crate::shards::hash_map_set;
use crate::shards::hash_map_snapshot;
use crate::shards::scalar_contents;
use crate::shards::scalar_map_get;
use crate::shards::scalar_map_insert;
use crate::shards::set_contents;
use crate::shards::set_map_add;
use crate::shards::set_map_contains;
use crate::shards::set_map_ensure;
use crate::shards::set_map_snapshot;
use crate::text::texts_of_strings;
use crate::shards::HashMapOfMaps;
use crate::shards::ScalarMap;
use crate::shards::SetMapOfSets;
use dashmap::DashMap;

verus! {

/// The three namespaces of the store.
pub struct BackendInner {
    pub(crate) map: ScalarMap,
    pub(crate) hmap: HashMapOfMaps,
    pub(crate) set_map: SetMapOfSets,
}

/// The storage engine handle: one construction call yields a ready-to-use
/// engine holding all three namespaces.
pub struct Backend {
    pub(crate) inner: BackendInner,
}

impl View for BackendInner {
    /// One model per namespace: scalars, hashes, sets.
    type V = (
        Map<Seq<char>, FrameView>,
        Map<Seq<char>, Map<Seq<char>, FrameView>>,
        Map<Seq<char>, Set<Seq<char>>>,
    );

    closed spec fn view(&self) -> Self::V {
        (scalar_contents(self.map), hash_contents(self.hmap), set_contents(self.set_map))
    }
}

/// Relies on `DashMap::new`, once per namespace: a new engine holds three
/// empty maps.
#[verifier::external_body]
fn backend_inner_new() -> (r: BackendInner)
    ensures
        r@ == (
            Map::<Seq<char>, FrameView>::empty(),
            Map::<Seq<char>, Map<Seq<char>, FrameView>>::empty(),
            Map::<Seq<char>, Set<Seq<char>>>::empty(),
        ),
{
    BackendInner {
        map: DashMap::new(),
        hmap: DashMap::new(),
        set_map: DashMap::new(),
    }
}

/// The set at `key`, or the empty set when the key is absent.
pub open spec fn set_at(sets: Map<Seq<char>, Set<Seq<char>>>, key: Seq<char>) -> Set<Seq<char>> {
    if sets.contains_key(key) {
        sets[key]
    } else {
        Set::empty()
    }
}

/// The hash at `key`, or the empty mapping when the key is absent.
pub open spec fn hash_at(
    hashes: Map<Seq<char>, Map<Seq<char>, FrameView>>,
    key: Seq<char>,
) -> Map<Seq<char>, FrameView> {
    if hashes.contains_key(key) {
        hashes[key]
    } else {
        Map::empty()
    }
}

/// The set after adding the given members, in order.
pub open spec fn with_members(s: Set<Seq<char>>, ms: Seq<Seq<char>>) -> Set<Seq<char>>
    decreases ms.len(),
{
    if ms.len() == 0 {
        s
    } else {
        with_members(s, ms.drop_last()).insert(ms.last())
    }
}

/// How many of the given members were new when added left to right: a member
/// already in the set counts zero, and a repeated member counts only once.
pub open spec fn newly_added(s: Set<Seq<char>>, ms: Seq<Seq<char>>) -> int
    decreases ms.len(),
{
    if ms.len() == 0 {
        0int
    } else {
        newly_added(s, ms.drop_last()) + if with_members(s, ms.drop_last()).contains(ms.last()) {
            0int
        } else {
            1int
        }
    }
}

/// Whether two engine states hold the same contents in all three namespaces.
pub open spec fn same_store(a: Backend, b: Backend) -> bool {
    &&& a.scalars() == b.scalars()
    &&& a.hashes() == b.hashes()
    &&& a.sets() == b.sets()
}

impl Backend {
    /// The model of the scalar namespace.
    pub closed spec fn scalars(self) -> Map<Seq<char>, FrameView> {
        scalar_contents(self.inner.map)
    }

    /// The model of the hash namespace.
    pub closed spec fn hashes(self) -> Map<Seq<char>, Map<Seq<char>, FrameView>> {
        hash_contents(self.inner.hmap)
    }

    /// The model of the set namespace.
    pub closed spec fn sets(self) -> Map<Seq<char>, Set<Seq<char>>> {
        set_contents(self.inner.set_map)
    }

    /// A ready-to-use engine with all three namespaces empty.
    pub fn new() -> (r: Backend)
        ensures
            r.scalars() == Map::<Seq<char>, FrameView>::empty(),
            r.hashes() == Map::<Seq<char>, Map<Seq<char>, FrameView>>::empty(),
            r.sets() == Map::<Seq<char>, Set<Seq<char>>>::empty(),
    {
        Backend { inner: BackendInner::default() }
    }

    /// Scalar read: the value at `key`, or nothing; no side effect.
    pub fn get(&self, key: &str) -> (r: Option<RespFrame>)
        ensures
            r is Some <==> self.scalars().contains_key(key@),
            r matches Some(f) ==> f@ == self.scalars()[key@],
    {
        scalar_map_get(&self.inner.map, key)
    }

    /// Scalar upsert: overwrites unconditionally.
    pub fn set(&mut self, key: String, value: RespFrame)
        ensures
            final(self).scalars() == old(self).scalars().insert(key@, value@),
            final(self).hashes() == old(self).hashes(),
            final(self).sets() == old(self).sets(),
    {
        scalar_map_insert(&mut self.inner.map, key, value);
    }

    /// Hash read: nothing when the key is absent or the field is absent
    /// within the key.
    pub fn hget(&self, key: &str, field: &str) -> (r: Option<RespFrame>)
        ensures
            r is Some <==> (self.hashes().contains_key(key@)
                && self.hashes()[key@].contains_key(field@)),
            r matches Some(f) ==> f@ == self.hashes()[key@][field@],
    {
        hash_map_get(&self.inner.hmap, key, field)
    }

    /// Hash multi-read: one entry per requested field, in order; when the key
    /// is entirely absent every entry is absent, never a shorter list.
    pub fn hmget(&self, key: &str, fields: &Vec<String>) -> (r: Vec<Option<RespFrame>>)
        ensures
            r@.len() == fields@.len(),
            forall|i: int|
                #![trigger r@[i]]
                0 <= i < fields@.len() ==> {
                    &&& r@[i] is Some <==> (self.hashes().contains_key(key@)
                        && self.hashes()[key@].contains_key(fields@[i]@))
                    &&& r@[i] matches Some(f) ==> f@ == self.hashes()[key@][fields@[i]@]
                },
    {
        let mut r: Vec<Option<RespFrame>> = Vec::new();
        let mut i: usize = 0;
        while i < fields.len()
            invariant
                i <= fields.len(),
                r@.len() == i,
                forall|j: int|
                    #![trigger r@[j]]
                    0 <= j < i ==> {
                        &&& r@[j] is Some <==> (self.hashes().contains_key(key@)
                            && self.hashes()[key@].contains_key(fields@[j]@))
                        &&& r@[j] matches Some(f) ==> f@ == self.hashes()[key@][fields@[j]@]
                    },
            decreases fields.len() - i,
        {
            r.push(hash_map_get(&self.inner.hmap, key, fields[i].as_str()));
            i = i + 1;
        }
        r
    }

    /// Hash upsert: creates the hash at `key` if absent, then upserts the
    /// field.
    pub fn hset(&mut self, key: String, field: String, value: RespFrame)
        ensures
            final(self).hashes() == old(self).hashes().insert(
                key@,
                hash_at(old(self).hashes(), key@).insert(field@, value@),
            ),
            final(self).scalars() == old(self).scalars(),
            final(self).sets() == old(self).sets(),
    {
        hash_map_set(&mut self.inner.hmap, key, field, value);
    }

    /// Point-in-time copy of the hash at `key`: every field/value pair
    /// exactly once, in unspecified order; nothing when the key is absent.
    pub fn hgetall(&self, key: &str) -> (r: Option<Vec<(String, RespFrame)>>)
        ensures
            r is Some <==> self.hashes().contains_key(key@),
            r matches Some(v) ==> {
                let h = self.hashes()[key@];
                &&& forall|i: int|
                    #![trigger v@[i]]
                    0 <= i < v@.len() ==> h.contains_key(v@[i].0@) && v@[i].1@ == h[v@[i].0@]
                &&& forall|f: Seq<char>|
                    h.contains_key(f) ==> exists|i: int|
                        0 <= i < v@.len() && #[trigger] v@[i].0@ == f
                &&& forall|i: int, j: int|
                    #![trigger v@[i], v@[j]]
                    0 <= i < j < v@.len() ==> v@[i].0@ != v@[j].0@
            },
    {
        hash_map_snapshot(&self.inner.hmap, key)
    }

    /// Point-in-time copy of the set at `key`: every member exactly once, in
    /// unspecified order; nothing when the key is absent.
    pub fn smembers(&self, key: &str) -> (r: Option<Vec<String>>)
        ensures
            r is Some <==> self.sets().contains_key(key@),
            r matches Some(v) ==> {
                let s = self.sets()[key@];
                &&& forall|i: int| #![trigger v@[i]] 0 <= i < v@.len() ==> s.contains(v@[i]@)
                &&& forall|mem: Seq<char>|
                    s.contains(mem) ==> exists|i: int| 0 <= i < v@.len() && #[trigger] v@[i]@ == mem
                &&& forall|i: int, j: int|
                    #![trigger v@[i], v@[j]]
                    0 <= i < j < v@.len() ==> v@[i]@ != v@[j]@
            },
    {
        set_map_snapshot(&self.inner.set_map, key)
    }

    /// Set add: creates the set at `key` if absent, adds the members left to
    /// right, and returns how many were not already present; a duplicate
    /// within the input counts once.
    pub fn sadd(&mut self, key: &str, values: &Vec<String>) -> (r: i64)
        requires
            values@.len() <= i64::MAX,
        ensures
            0 <= r <= values@.len(),
            r == newly_added(set_at(old(self).sets(), key@), texts_of_strings(values@)),
            final(self).sets() == old(self).sets().insert(
                key@,
                with_members(set_at(old(self).sets(), key@), texts_of_strings(values@)),
            ),
            final(self).scalars() == old(self).scalars(),
            final(self).hashes() == old(self).hashes(),
    {
        let ghost s0 = set_at(old(self).sets(), key@);
        let ghost ms = texts_of_strings(values@);
        set_map_ensure(&mut self.inner.set_map, key);
        let mut count: i64 = 0;
        let mut i: usize = 0;
        while i < values.len()
            invariant
                i <= values.len(),
                values@.len() <= i64::MAX,
                0 <= count <= i,
                ms == texts_of_strings(values@),
                s0 == set_at(old(self).sets(), key@),
                self.inner.map == old(self).inner.map,
                self.inner.hmap == old(self).inner.hmap,
                self.sets() == old(self).sets().insert(
                    key@,
                    with_members(s0, ms.subrange(0, i as int)),
                ),
                count == newly_added(s0, ms.subrange(0, i as int)),
            decreases values.len() - i,
        {
            let ghost prefix = ms.subrange(0, i as int);
            let ghost longer = ms.subrange(0, i as int + 1);
            proof {
                assert(longer.drop_last() =~= prefix);
                assert(longer.last() == values@[i as int]@);
            }
            let newly = set_map_add(&mut self.inner.set_map, key, values[i].as_str());
            proof {
                assert(self.sets() =~= old(self).sets().insert(key@, with_members(s0, longer)));
            }
            if newly {
                count = count + 1;
            }
            i = i + 1;
        }
        proof {
            assert(ms.subrange(0, values@.len() as int) =~= ms);
        }
        count
    }

    /// Membership test: `1` when the set at `key` exists and holds the
    /// member, `0` otherwise (absent key included); no error path.
    pub fn sismember(&self, key: &str, value: String) -> (r: i64)
        ensures
            r == if self.sets().contains_key(key@) && self.sets()[key@].contains(value@) {
                1i64
            } else {
                0i64
            },
    {
        let ismember = set_map_contains(&self.inner.set_map, key, value.as_str());
        match ismember {
            true => 1,
            false => 0,
        }
    }
}

impl Default for BackendInner {
    /// Three empty namespaces.
    fn default() -> (r: BackendInner)
        ensures
            r@ == (
                Map::<Seq<char>, FrameView>::empty(),
                Map::<Seq<char>, Map<Seq<char>, FrameView>>::empty(),
                Map::<Seq<char>, Set<Seq<char>>>::empty(),
            ),
    {
        backend_inner_new()
    }
}

impl Default for Backend {
    /// Same as [`Backend::new`].
    fn default() -> (r: Backend)
        ensures
            r.scalars() == Map::<Seq<char>, FrameView>::empty(),
            r.hashes() == Map::<Seq<char>, Map<Seq<char>, FrameView>>::empty(),
            r.sets() == Map::<Seq<char>, Set<Seq<char>>>::empty(),
    {
        Backend::new()
    }
}

} // verus!
