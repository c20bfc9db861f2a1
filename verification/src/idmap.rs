//! Entity-keyed hash maps, backed by `bevy::utils::HashMap` (hashbrown with
//! ahash's randomly seeded `RandomState`).
//!
//! hashbrown's `HashMap` carries an allocator parameter, which a Verus type
//! declaration cannot match, so each map shape that the minds use is held
//! in a private field of a struct of this module. Each method marked
//! `external_body` makes one call into the map and is trusted to meet its
//! contract; the public accessors are verified over them. The order in
//! which keys come out depends on the per-process hash seed, so `keys`
//! only states what holds of every order.

use bevy::utils::{HashMap, HashSet};
use smallvec::SmallVec;
use vstd::prelude::*;

verus! {

/// The sizes at which inserting a new key is known not to hit hashbrown's
/// "Hash table capacity overflow" panic for the entry types of this
/// module, on 32-bit and 64-bit targets alike. Replacing the value of a key
/// that is present never grows the table.
pub open spec fn map_room(len: nat) -> bool {
    len < 0x10_0000
}

/// A finite map with room for a new key.
pub open spec fn fits<V>(m: Map<u64, V>) -> bool {
    m.dom().finite() && map_room(m.len())
}

/// A `HashMap<u64, u64>`: entity id to entity or kind id.
#[verifier::external_body]
pub struct IdMap {
    inner: HashMap<u64, u64>,
}

/// The entries of an [`IdMap`].
pub uninterp spec fn id_map_contents(m: IdMap) -> Map<u64, u64>;

impl View for IdMap {
    type V = Map<u64, u64>;

    open spec fn view(&self) -> Map<u64, u64> {
        id_map_contents(*self)
    }
}

impl IdMap {
    /// `HashMap::default`: an empty map.
    #[verifier::external_body]
    pub(crate) fn new() -> (r: IdMap)
        ensures
            id_map_contents(r).dom() == Set::<u64>::empty(),
            id_map_contents(r).dom().finite(),
    {
        IdMap { inner: HashMap::default() }
    }

    /// `HashMap::insert`: maps `k` to `v`, handing back the value it replaced.
    #[verifier::external_body]
    pub(crate) fn insert(&mut self, k: u64, v: u64) -> (r: Option<u64>)
        requires
            fits(id_map_contents(*old(self))) || id_map_contents(*old(self)).dom().contains(k),
        ensures
            id_map_contents(*final(self)) == id_map_contents(*old(self)).insert(k, v),
            r == (if id_map_contents(*old(self)).dom().contains(k) {
                Some(id_map_contents(*old(self))[k])
            } else {
                None
            }),
    {
        self.inner.insert(k, v)
    }

    /// `HashMap::remove`: drops the entry of `k`, handing back its value.
    #[verifier::external_body]
    pub(crate) fn remove(&mut self, k: u64) -> (r: Option<u64>)
        ensures
            id_map_contents(*final(self)) == id_map_contents(*old(self)).remove(k),
            r == (if id_map_contents(*old(self)).dom().contains(k) {
                Some(id_map_contents(*old(self))[k])
            } else {
                None
            }),
    {
        self.inner.remove(&k)
    }

    /// `HashMap::get`: the value of `k`, if any.
    #[verifier::external_body]
    fn hash_get(&self, k: u64) -> (r: Option<u64>)
        ensures
            r == (if id_map_contents(*self).dom().contains(k) {
                Some(id_map_contents(*self)[k])
            } else {
                None
            }),
    {
        self.inner.get(&k).copied()
    }

    /// `HashMap::len`: the number of entries.
    #[verifier::external_body]
    fn hash_len(&self) -> (r: usize)
        ensures
            r == id_map_contents(*self).len(),
    {
        self.inner.len()
    }

    /// `HashMap::keys`: every key once, in the map's iteration order.
    #[verifier::external_body]
    fn hash_keys(&self) -> (r: Vec<u64>)
        ensures
            r@.no_duplicates(),
            r@.to_set() == id_map_contents(*self).dom(),
    {
        self.inner.keys().copied().collect()
    }

    /// The value of `k`, if any.
    pub fn get(&self, k: u64) -> (r: Option<u64>)
        ensures
            r == (if self@.dom().contains(k) {
                Some(self@[k])
            } else {
                None
            }),
    {
        self.hash_get(k)
    }

    /// The number of entries.
    pub fn len(&self) -> (r: usize)
        ensures
            r == self@.len(),
    {
        self.hash_len()
    }

    /// Every key once, in the map's iteration order.
    pub fn keys(&self) -> (r: Vec<u64>)
        ensures
            r@.no_duplicates(),
            r@.to_set() == self@.dom(),
    {
        self.hash_keys()
    }
}

/// A `HashMap<u64, SmallVec<[u64; 3]>>`: kind or class id to the entity
/// ids filed under it.
#[verifier::external_body]
pub struct IdListMap {
    inner: HashMap<u64, SmallVec<[u64; 3]>>,
}

/// The entries of an [`IdListMap`], each list in its stored order.
pub uninterp spec fn id_list_map_contents(m: IdListMap) -> Map<u64, Seq<u64>>;

impl View for IdListMap {
    type V = Map<u64, Seq<u64>>;

    open spec fn view(&self) -> Map<u64, Seq<u64>> {
        id_list_map_contents(*self)
    }
}

impl IdListMap {
    /// `HashMap::default`: an empty map.
    #[verifier::external_body]
    pub(crate) fn new() -> (r: IdListMap)
        ensures
            id_list_map_contents(r).dom() == Set::<u64>::empty(),
            id_list_map_contents(r).dom().finite(),
    {
        IdListMap { inner: HashMap::default() }
    }

    /// `HashMap::get`: a copy of the list of `k`, if any.
    #[verifier::external_body]
    fn hash_get(&self, k: u64) -> (r: Option<Vec<u64>>)
        ensures
            id_list_map_contents(*self).dom().contains(k) <==> r.is_some(),
            r matches Some(v) ==> v@ == id_list_map_contents(*self)[k],
    {
        match self.inner.get(&k) {
            Some(v) => Some(v.to_vec()),
            None => None,
        }
    }

    /// `HashMap::insert`: maps `k` to a `SmallVec` holding the ids of `v`.
    #[verifier::external_body]
    pub(crate) fn insert(&mut self, k: u64, v: Vec<u64>)
        requires
            fits(id_list_map_contents(*old(self))) || id_list_map_contents(*old(self)).dom().contains(k),
        ensures
            id_list_map_contents(*final(self)) == id_list_map_contents(*old(self)).insert(k, v@),
    {
        self.inner.insert(k, SmallVec::from_vec(v));
    }

    /// `HashMap::remove`: drops the entry of `k`.
    #[verifier::external_body]
    pub(crate) fn remove(&mut self, k: u64)
        ensures
            id_list_map_contents(*final(self)) == id_list_map_contents(*old(self)).remove(k),
    {
        self.inner.remove(&k);
    }

    /// `HashMap::len`: the number of entries.
    #[verifier::external_body]
    fn hash_len(&self) -> (r: usize)
        ensures
            r == id_list_map_contents(*self).len(),
    {
        self.inner.len()
    }

    /// A copy of the list of `k`, if any.
    pub fn get(&self, k: u64) -> (r: Option<Vec<u64>>)
        ensures
            self@.dom().contains(k) <==> r.is_some(),
            r matches Some(v) ==> v@ == self@[k],
    {
        self.hash_get(k)
    }

    /// The number of entries.
    pub fn len(&self) -> (r: usize)
        ensures
            r == self@.len(),
    {
        self.hash_len()
    }
}

/// A `HashMap<u64, (u64, u64)>`: weapon entity id to its kind and class ids.
#[verifier::external_body]
pub struct IdPairMap {
    inner: HashMap<u64, (u64, u64)>,
}

/// The entries of an [`IdPairMap`].
pub uninterp spec fn id_pair_map_contents(m: IdPairMap) -> Map<u64, (u64, u64)>;

impl View for IdPairMap {
    type V = Map<u64, (u64, u64)>;

    open spec fn view(&self) -> Map<u64, (u64, u64)> {
        id_pair_map_contents(*self)
    }
}

impl IdPairMap {
    /// `HashMap::default`: an empty map.
    #[verifier::external_body]
    pub(crate) fn new() -> (r: IdPairMap)
        ensures
            id_pair_map_contents(r).dom() == Set::<u64>::empty(),
            id_pair_map_contents(r).dom().finite(),
    {
        IdPairMap { inner: HashMap::default() }
    }

    /// `HashMap::insert`: maps `k` to `v`.
    #[verifier::external_body]
    pub(crate) fn insert(&mut self, k: u64, v: (u64, u64))
        requires
            fits(id_pair_map_contents(*old(self))) || id_pair_map_contents(*old(self)).dom().contains(k),
        ensures
            id_pair_map_contents(*final(self)) == id_pair_map_contents(*old(self)).insert(k, v),
    {
        self.inner.insert(k, v);
    }

    /// `HashMap::remove`: drops the entry of `k`, handing back its value.
    #[verifier::external_body]
    pub(crate) fn remove(&mut self, k: u64) -> (r: Option<(u64, u64)>)
        ensures
            id_pair_map_contents(*final(self)) == id_pair_map_contents(*old(self)).remove(k),
            r == (if id_pair_map_contents(*old(self)).dom().contains(k) {
                Some(id_pair_map_contents(*old(self))[k])
            } else {
                None
            }),
    {
        self.inner.remove(&k)
    }

    /// `HashMap::keys`: every key once, in the map's iteration order.
    #[verifier::external_body]
    pub(crate) fn keys(&self) -> (r: Vec<u64>)
        ensures
            r@.no_duplicates(),
            r@.to_set() == id_pair_map_contents(*self).dom(),
    {
        self.inner.keys().copied().collect()
    }
}

/// A `HashSet<u64>` of entity ids.
#[verifier::external_body]
pub struct IdSet {
    inner: HashSet<u64>,
}

/// The ids held by an [`IdSet`].
pub uninterp spec fn id_set_contents(m: IdSet) -> Set<u64>;

impl View for IdSet {
    type V = Set<u64>;

    open spec fn view(&self) -> Set<u64> {
        id_set_contents(*self)
    }
}

impl IdSet {
    /// `HashSet::default`: an empty set.
    #[verifier::external_body]
    pub(crate) fn new() -> (r: IdSet)
        ensures
            id_set_contents(r) == Set::<u64>::empty(),
    {
        IdSet { inner: HashSet::default() }
    }

    /// `HashSet::insert`: adds `k`.
    #[verifier::external_body]
    pub(crate) fn insert(&mut self, k: u64)
        requires
            (id_set_contents(*old(self)).finite() && map_room(id_set_contents(*old(self)).len()))
                || id_set_contents(*old(self)).contains(k),
        ensures
            id_set_contents(*final(self)) == id_set_contents(*old(self)).insert(k),
    {
        self.inner.insert(k);
    }

    /// `HashSet::contains`: whether `k` is held.
    #[verifier::external_body]
    pub(crate) fn contains(&self, k: u64) -> (r: bool)
        ensures
            r == id_set_contents(*self).contains(k),
    {
        self.inner.contains(&k)
    }

    /// `HashSet::remove`: drops `k`.
    #[verifier::external_body]
    pub(crate) fn remove(&mut self, k: u64)
        ensures
            id_set_contents(*final(self)) == id_set_contents(*old(self)).remove(k),
    {
        self.inner.remove(&k);
    }

    /// `HashSet::drain`: hands out every id once, in the set's iteration
    /// order, and leaves the set empty.
    #[verifier::external_body]
    pub(crate) fn drain_all(&mut self) -> (r: Vec<u64>)
        ensures
            r@.no_duplicates(),
            r@.to_set() == id_set_contents(*old(self)),
            id_set_contents(*final(self)) == Set::<u64>::empty(),
    {
        self.inner.drain().collect()
    }
}

} // verus!
