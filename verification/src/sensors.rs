//! Per-craft indices of the steering routines, weapons and strategies
//! attached to a craft, and the global cross-reference indices used to
//! clean them up when the attached entities despawn.
//!
//! Each per-craft index files an entity under one key (its kind, or its
//! class) in two directions: entity to key, and key to the list of
//! entities filed under it.

use crate::idmap::{fits, map_room, IdListMap, IdMap, IdPairMap};
use crate::ids::{first_index, is_first_index, lemma_swap_remove_pushed, remove_first, swap_remove_first, ClassId, EntityId, KindId};
use vstd::prelude::*;

verus! {

/// The list filed under `k`, empty when there is none.
pub open spec fn list_of(k2e: Map<u64, Seq<u64>>, k: u64) -> Seq<u64> {
    if k2e.dom().contains(k) {
        k2e[k]
    } else {
        Seq::empty()
    }
}

/// `k2e` with `e` appended to the list of `k` (created when missing).
pub open spec fn filed_under(k2e: Map<u64, Seq<u64>>, k: u64, e: u64) -> Map<u64, Seq<u64>> {
    k2e.insert(k, list_of(k2e, k).push(e))
}

/// `k2e` with the first `e` swap-removed from the list of `k`, when `k` has one.
pub open spec fn unfiled_from(k2e: Map<u64, Seq<u64>>, k: u64, e: u64) -> Map<u64, Seq<u64>> {
    if k2e.dom().contains(k) {
        k2e.insert(k, swap_remove_first(k2e[k], e))
    } else {
        k2e
    }
}

/// `k2e` without the entry of `k` when that entry is an empty list.
pub open spec fn pruned(k2e: Map<u64, Seq<u64>>, k: u64) -> Map<u64, Seq<u64>> {
    if k2e.dom().contains(k) && k2e[k].len() == 0 {
        k2e.remove(k)
    } else {
        k2e
    }
}

/// The two directions of an index agree: every filed entity is listed under
/// its key, every listed entity is filed under that key, and no list holds
/// an entity twice.
pub open spec fn index_consistent(e2k: Map<u64, u64>, k2e: Map<u64, Seq<u64>>) -> bool {
    &&& forall|e: u64|
        #![trigger e2k.dom().contains(e)]
        e2k.dom().contains(e) ==> k2e.dom().contains(e2k[e]) && k2e[e2k[e]].contains(e)
    &&& forall|k: u64, i: int|
        #![trigger k2e[k][i]]
        k2e.dom().contains(k) && 0 <= i < k2e[k].len() ==> e2k.dom().contains(k2e[k][i])
            && e2k[k2e[k][i]] == k
    &&& forall|k: u64| #![trigger k2e[k]] k2e.dom().contains(k) ==> k2e[k].no_duplicates()
}

/// No key of the index keeps an empty list.
pub open spec fn no_empty_lists(k2e: Map<u64, Seq<u64>>) -> bool {
    forall|k: u64| #![trigger k2e[k]] k2e.dom().contains(k) ==> k2e[k].len() > 0
}

/// Appends `e` to the list filed under `k`.
fn file_under(map: &mut IdListMap, k: u64, e: u64)
    requires
        fits(old(map)@) || old(map)@.dom().contains(k),
    ensures
        final(map)@ == filed_under(old(map)@, k, e),
{
    let mut list = match map.get(k) {
        Some(v) => v,
        None => Vec::new(),
    };
    list.push(e);
    map.insert(k, list);
}

/// Swap-removes the first `e` from the list filed under `k`, if `k` has a
/// list; reports whether that list is now empty.
fn unfile_from(map: &mut IdListMap, k: u64, e: u64) -> (emptied: bool)
    ensures
        final(map)@ == unfiled_from(old(map)@, k, e),
        emptied == (final(map)@.dom().contains(k) && final(map)@[k].len() == 0),
{
    match map.get(k) {
        Some(v) => {
            let mut list = v;
            remove_first(&mut list, e);
            let emptied = list.len() == 0;
            map.insert(k, list);
            emptied
        },
        None => false,
    }
}

/// Filing a new entity keeps an index consistent.
pub proof fn lemma_file_keeps_consistency(
    e2k: Map<u64, u64>,
    k2e: Map<u64, Seq<u64>>,
    e: u64,
    k: u64,
)
    requires
        index_consistent(e2k, k2e),
        !e2k.dom().contains(e),
    ensures
        index_consistent(e2k.insert(e, k), filed_under(k2e, k, e)),
{
    let e2k2 = e2k.insert(e, k);
    let k2e2 = filed_under(k2e, k, e);
    let l = list_of(k2e, k);
    assert(!l.contains(e)) by {
        if l.contains(e) {
            let i = choose|i: int| 0 <= i < l.len() && l[i] == e;
            assert(k2e[k][i] == e);
        }
    }
    assert forall|x: u64| #![trigger e2k2.dom().contains(x)] e2k2.dom().contains(x) implies k2e2.dom().contains(e2k2[x]) && k2e2[e2k2[x]].contains(x) by {
        if x == e {
            assert(k2e2[k][l.len() as int] == e);
        } else if e2k[x] == k {
            let j = choose|j: int| 0 <= j < k2e[k].len() && k2e[k][j] == x;
            assert(k2e2[k][j] == x);
        }
    }
    assert forall|kk: u64, i: int| #![trigger k2e2[kk][i]] k2e2.dom().contains(kk) && 0 <= i < k2e2[kk].len() implies e2k2.dom().contains(k2e2[kk][i]) && e2k2[k2e2[kk][i]] == kk by {
        if kk == k {
            if i < l.len() {
                assert(k2e[k][i] == l[i]);
            }
        } else {
            assert(k2e[kk][i] != e);
        }
    }
    assert forall|kk: u64| #![trigger k2e2[kk]] k2e2.dom().contains(kk) implies k2e2[kk].no_duplicates() by {
        if kk == k {
            let l2 = l.push(e);
            assert forall|a: int, b: int| 0 <= a < l2.len() && 0 <= b < l2.len() && a != b implies l2[a] != l2[b] by {
                if a < l.len() && b < l.len() {
                    assert(k2e[k][a] != k2e[k][b]);
                } else if a < l.len() {
                    assert(l.contains(l[a]));
                } else {
                    assert(l.contains(l[b]));
                }
            }
        }
    }
}

/// Unfiling a filed entity keeps an index consistent.
pub proof fn lemma_unfile_keeps_consistency(e2k: Map<u64, u64>, k2e: Map<u64, Seq<u64>>, e: u64)
    requires
        index_consistent(e2k, k2e),
        e2k.dom().contains(e),
    ensures
        index_consistent(e2k.remove(e), unfiled_from(k2e, e2k[e], e)),
        forall|kk: u64|
            k2e.dom().contains(kk) ==> unfiled_from(k2e, e2k[e], e).dom().contains(kk) && (kk
                != e2k[e] ==> unfiled_from(k2e, e2k[e], e)[kk] == k2e[kk]),
        unfiled_from(k2e, e2k[e], e).dom() == k2e.dom(),
        unfiled_from(k2e, e2k[e], e)[e2k[e]].len() + 1 == k2e[e2k[e]].len(),
{
    let k = e2k[e];
    let l = k2e[k];
    assert(k2e.dom().contains(k) && l.contains(e));
    let p = choose|p: int| 0 <= p < l.len() && l[p] == e;
    assert(is_first_index(l, e, p)) by {
        assert forall|j: int| 0 <= j < p implies l[j] != e by {
            assert(k2e[k][j] != k2e[k][p]);
        }
    }
    let i = first_index(l, e);
    assert(i == p);
    let l2 = swap_remove_first(l, e);
    assert(l2 == l.update(i, l.last()).drop_last());
    assert(forall|j: int| 0 <= j < l2.len() ==> l2[j] == (if j == i { l.last() } else { l[j] }));
    let e2k2 = e2k.remove(e);
    let k2e2 = unfiled_from(k2e, k, e);
    assert(k2e2 == k2e.insert(k, l2));
    assert forall|j: int| 0 <= j < l2.len() implies l2[j] != e by {
        if j == i {
            assert(k2e[k][l.len() - 1] != k2e[k][i]);
        } else {
            assert(k2e[k][j] != k2e[k][i]);
        }
    }
    assert forall|x: u64| #![trigger e2k2.dom().contains(x)] e2k2.dom().contains(x) implies k2e2.dom().contains(e2k2[x]) && k2e2[e2k2[x]].contains(x) by {
        assert(x != e);
        if e2k[x] == k {
            let j = choose|j: int| 0 <= j < k2e[k].len() && k2e[k][j] == x;
            if j == l.len() - 1 {
                assert(l2[i] == x);
            } else {
                assert(l2[j] == x);
            }
        }
    }
    assert forall|kk: u64, j: int| #![trigger k2e2[kk][j]] k2e2.dom().contains(kk) && 0 <= j < k2e2[kk].len() implies e2k2.dom().contains(k2e2[kk][j]) && e2k2[k2e2[kk][j]] == kk by {
        if kk == k {
            if j == i {
                assert(k2e[k][l.len() - 1] == l2[j]);
            } else {
                assert(k2e[k][j] == l2[j]);
            }
        } else {
            assert(e2k[k2e[kk][j]] == kk);
        }
    }
    assert forall|kk: u64| #![trigger k2e2[kk]] k2e2.dom().contains(kk) implies k2e2[kk].no_duplicates() by {
        if kk == k {
            assert forall|a: int, b: int| 0 <= a < l2.len() && 0 <= b < l2.len() && a != b implies l2[a] != l2[b] by {
                let pa = if a == i { l.len() - 1 } else { a };
                let pb = if b == i { l.len() - 1 } else { b };
                assert(l2[a] == l[pa] && l2[b] == l[pb]);
                assert(k2e[k][pa] != k2e[k][pb]);
            }
        }
    }
}

/// Dropping an empty list keeps an index consistent.
pub proof fn lemma_prune_keeps_consistency(e2k: Map<u64, u64>, k2e: Map<u64, Seq<u64>>, k: u64)
    requires
        index_consistent(e2k, k2e),
    ensures
        index_consistent(e2k, pruned(k2e, k)),
{
    let k2e2 = pruned(k2e, k);
    assert forall|x: u64| #![trigger e2k.dom().contains(x)] e2k.dom().contains(x) implies k2e2.dom().contains(e2k[x]) && k2e2[e2k[x]].contains(x) by {
        assert(k2e[e2k[x]].contains(x));
    }
}

/// An entity that a consistent index does not file appears in none of its lists.
pub proof fn lemma_unfiled_entity_unlisted(e2k: Map<u64, u64>, k2e: Map<u64, Seq<u64>>, e: u64, k: u64)
    requires
        index_consistent(e2k, k2e),
        !e2k.dom().contains(e),
    ensures
        !list_of(k2e, k).contains(e),
{
    if k2e.dom().contains(k) && k2e[k].contains(e) {
        let i = choose|i: int| 0 <= i < k2e[k].len() && k2e[k][i] == e;
        assert(e2k.dom().contains(k2e[k][i]));
    }
}

/// The steering routines attached to a craft, by kind.
pub struct SteeringRoutinesIndex {
    pub entt_to_kind: IdMap,
    pub kind_to_entt: IdListMap,
}

/// The two maps of a routines index after `insert(e, k)`.
pub open spec fn routines_after_insert(
    e2k: Map<u64, u64>,
    k2e: Map<u64, Seq<u64>>,
    e: u64,
    k: u64,
) -> (Map<u64, u64>, Map<u64, Seq<u64>>) {
    (e2k.insert(e, k), filed_under(k2e, k, e))
}

/// The two maps of a routines index after `remove(e)`: the entity is
/// unfiled, and its kind is dropped once no routine of it is left.
pub open spec fn routines_after_remove(
    e2k: Map<u64, u64>,
    k2e: Map<u64, Seq<u64>>,
    e: u64,
) -> (Map<u64, u64>, Map<u64, Seq<u64>>) {
    if e2k.dom().contains(e) {
        let k = e2k[e];
        (e2k.remove(e), pruned(unfiled_from(k2e, k, e), k))
    } else {
        (e2k, k2e)
    }
}

impl SteeringRoutinesIndex {
    /// An empty index.
    pub fn new() -> (r: SteeringRoutinesIndex)
        ensures
            r.entt_to_kind@ == Map::<u64, u64>::empty(),
            r.kind_to_entt@ == Map::<u64, Seq<u64>>::empty(),
    {
        let r = SteeringRoutinesIndex { entt_to_kind: IdMap::new(), kind_to_entt: IdListMap::new() };
        assert(r.entt_to_kind@ =~= Map::<u64, u64>::empty());
        assert(r.kind_to_entt@ =~= Map::<u64, Seq<u64>>::empty());
        r
    }

    /// The routines of kind `kind`, if any were ever filed under it and not all removed.
    pub fn kind(&self, kind: KindId) -> (r: Option<Vec<EntityId>>)
        ensures
            r.is_some() == self.kind_to_entt@.dom().contains(kind),
            r matches Some(v) ==> v@ == self.kind_to_entt@[kind],
    {
        self.kind_to_entt.get(kind)
    }

    /// Files the routine `entt` under `kind`.
    pub fn insert(&mut self, entt: EntityId, kind: KindId)
        requires
            fits(old(self).entt_to_kind@),
            fits(old(self).kind_to_entt@),
        ensures
            (final(self).entt_to_kind@, final(self).kind_to_entt@) == routines_after_insert(
                old(self).entt_to_kind@,
                old(self).kind_to_entt@,
                entt,
                kind,
            ),
    {
        self.entt_to_kind.insert(entt, kind);
        file_under(&mut self.kind_to_entt, kind, entt);
    }

    /// Unfiles the routine `entt`, dropping its kind once no routine of it is left.
    pub fn remove(&mut self, entt: EntityId)
        ensures
            (final(self).entt_to_kind@, final(self).kind_to_entt@) == routines_after_remove(
                old(self).entt_to_kind@,
                old(self).kind_to_entt@,
                entt,
            ),
    {
        if let Some(kind) = self.entt_to_kind.remove(entt) {
            let emptied = unfile_from(&mut self.kind_to_entt, kind, entt);
            if emptied {
                self.kind_to_entt.remove(kind);
            }
        }
    }
}

/// Filing a routine that is not yet indexed keeps a routines index
/// consistent and free of empty lists.
pub proof fn lemma_routines_insert_keeps_invariant(
    e2k: Map<u64, u64>,
    k2e: Map<u64, Seq<u64>>,
    e: u64,
    k: u64,
)
    requires
        index_consistent(e2k, k2e),
        no_empty_lists(k2e),
        !e2k.dom().contains(e),
    ensures
        index_consistent(routines_after_insert(e2k, k2e, e, k).0, routines_after_insert(e2k, k2e, e, k).1),
        no_empty_lists(routines_after_insert(e2k, k2e, e, k).1),
{
    lemma_file_keeps_consistency(e2k, k2e, e, k);
}

/// Removing any routine keeps a routines index consistent and free of empty lists.
pub proof fn lemma_routines_remove_keeps_invariant(e2k: Map<u64, u64>, k2e: Map<u64, Seq<u64>>, e: u64)
    requires
        index_consistent(e2k, k2e),
        no_empty_lists(k2e),
    ensures
        index_consistent(routines_after_remove(e2k, k2e, e).0, routines_after_remove(e2k, k2e, e).1),
        no_empty_lists(routines_after_remove(e2k, k2e, e).1),
{
    if e2k.dom().contains(e) {
        let k = e2k[e];
        lemma_unfile_keeps_consistency(e2k, k2e, e);
        lemma_prune_keeps_consistency(e2k.remove(e), unfiled_from(k2e, k, e), k);
    }
}

/// Removing a routine right after filing it, when it was not indexed
/// before, gives back the index as it was.
pub proof fn lemma_routines_remove_undoes_insert(
    e2k: Map<u64, u64>,
    k2e: Map<u64, Seq<u64>>,
    e: u64,
    k: u64,
)
    requires
        index_consistent(e2k, k2e),
        no_empty_lists(k2e),
        !e2k.dom().contains(e),
    ensures
        routines_after_remove(
            routines_after_insert(e2k, k2e, e, k).0,
            routines_after_insert(e2k, k2e, e, k).1,
            e,
        ) == (e2k, k2e),
{
    let (e2k2, k2e2) = routines_after_insert(e2k, k2e, e, k);
    lemma_unfiled_entity_unlisted(e2k, k2e, e, k);
    lemma_swap_remove_pushed(list_of(k2e, k), e);
    assert(e2k2.remove(e) =~= e2k);
    let k2e3 = unfiled_from(k2e2, k, e);
    assert(k2e3 == k2e.insert(k, list_of(k2e, k)));
    if k2e.dom().contains(k) {
        assert(k2e3 =~= k2e);
    } else {
        assert(pruned(k2e3, k) =~= k2e);
    }
}

/// Used to store entity data for despawn clean-up: an entity id to the id
/// of the craft whose index it was filed in.
///
/// For weapons, the floating-point parts of their description (speed,
/// range) are kept by the engine-side code, and this index keeps the craft
/// id.
pub struct CrossReferenceIndex {
    pub index: IdMap,
}

impl CrossReferenceIndex {
    /// An empty index.
    pub fn new() -> (r: CrossReferenceIndex)
        ensures
            r.index@ == Map::<u64, u64>::empty(),
    {
        let r = CrossReferenceIndex { index: IdMap::new() };
        assert(r.index@ =~= Map::<u64, u64>::empty());
        r
    }

    /// Records `item` for `entt`, replacing any earlier record.
    pub fn insert(&mut self, entt: EntityId, item: EntityId)
        requires
            fits(old(self).index@),
        ensures
            final(self).index@ == old(self).index@.insert(entt, item),
    {
        self.index.insert(entt, item);
    }

    /// Forgets the record of `k`, handing it back.
    pub fn remove(&mut self, k: EntityId) -> (r: Option<EntityId>)
        ensures
            final(self).index@ == old(self).index@.remove(k),
            r == (if old(self).index@.dom().contains(k) {
                Some(old(self).index@[k])
            } else {
                None
            }),
    {
        self.index.remove(k)
    }
}

/// Removing an entity's record right after recording it hands back the
/// recorded item and, when the entity had no record before, leaves the
/// index as it was.
pub proof fn lemma_cross_ref_remove_returns_inserted(index: Map<u64, u64>, entt: EntityId, item: EntityId)
    ensures
        index.insert(entt, item).dom().contains(entt),
        index.insert(entt, item)[entt] == item,
        !index.dom().contains(entt) ==> index.insert(entt, item).remove(entt) == index,
{
    if !index.dom().contains(entt) {
        assert(index.insert(entt, item).remove(entt) =~= index);
    }
}

/// The strategies attached to a craft, by kind.
pub struct BoidStrategyIndex {
    pub entt_to_class: IdMap,
    pub kind_to_entt: IdListMap,
}

/// The two maps of a strategy index after `remove(e)`: the entity is
/// unfiled; its kind keeps its (possibly empty) list.
pub open spec fn strategies_after_remove(
    e2k: Map<u64, u64>,
    k2e: Map<u64, Seq<u64>>,
    e: u64,
) -> (Map<u64, u64>, Map<u64, Seq<u64>>) {
    if e2k.dom().contains(e) {
        (e2k.remove(e), unfiled_from(k2e, e2k[e], e))
    } else {
        (e2k, k2e)
    }
}

impl BoidStrategyIndex {
    /// An empty index.
    pub fn new() -> (r: BoidStrategyIndex)
        ensures
            r.entt_to_class@ == Map::<u64, u64>::empty(),
            r.kind_to_entt@ == Map::<u64, Seq<u64>>::empty(),
    {
        let r = BoidStrategyIndex { entt_to_class: IdMap::new(), kind_to_entt: IdListMap::new() };
        assert(r.entt_to_class@ =~= Map::<u64, u64>::empty());
        assert(r.kind_to_entt@ =~= Map::<u64, Seq<u64>>::empty());
        r
    }

    /// The strategies of kind `kind`, if that kind ever had one filed.
    pub fn kind(&self, kind: KindId) -> (r: Option<Vec<EntityId>>)
        ensures
            r.is_some() == self.kind_to_entt@.dom().contains(kind),
            r matches Some(v) ==> v@ == self.kind_to_entt@[kind],
    {
        self.kind_to_entt.get(kind)
    }

    /// Files the strategy `entt` under `kind`.
    pub fn insert(&mut self, entt: EntityId, kind: KindId)
        requires
            fits(old(self).entt_to_class@),
            fits(old(self).kind_to_entt@),
        ensures
            final(self).entt_to_class@ == old(self).entt_to_class@.insert(entt, kind),
            final(self).kind_to_entt@ == filed_under(old(self).kind_to_entt@, kind, entt),
    {
        self.entt_to_class.insert(entt, kind);
        file_under(&mut self.kind_to_entt, kind, entt);
    }

    /// Unfiles the strategy `entt`.
    pub fn remove(&mut self, entt: EntityId)
        ensures
            (final(self).entt_to_class@, final(self).kind_to_entt@) == strategies_after_remove(
                old(self).entt_to_class@,
                old(self).kind_to_entt@,
                entt,
            ),
    {
        if let Some(kind) = self.entt_to_class.remove(entt) {
            unfile_from(&mut self.kind_to_entt, kind, entt);
        }
    }
}

/// Removing a strategy keeps a strategy index consistent.
pub proof fn lemma_strategies_remove_keeps_consistency(
    e2k: Map<u64, u64>,
    k2e: Map<u64, Seq<u64>>,
    e: u64,
)
    requires
        index_consistent(e2k, k2e),
    ensures
        index_consistent(strategies_after_remove(e2k, k2e, e).0, strategies_after_remove(e2k, k2e, e).1),
{
    if e2k.dom().contains(e) {
        lemma_unfile_keeps_consistency(e2k, k2e, e);
    }
}

/// Removing a strategy right after filing it, when it was not indexed
/// before, gives back the index as it was, except that its kind is left
/// with an empty list if it had none.
pub proof fn lemma_strategies_remove_undoes_insert(
    e2k: Map<u64, u64>,
    k2e: Map<u64, Seq<u64>>,
    e: u64,
    k: u64,
)
    requires
        index_consistent(e2k, k2e),
        !e2k.dom().contains(e),
    ensures
        strategies_after_remove(e2k.insert(e, k), filed_under(k2e, k, e), e) == (
            e2k,
            k2e.insert(k, list_of(k2e, k)),
        ),
{
    lemma_unfiled_entity_unlisted(e2k, k2e, e, k);
    lemma_swap_remove_pushed(list_of(k2e, k), e);
    assert(e2k.insert(e, k).remove(e) =~= e2k);
    assert(unfiled_from(filed_under(k2e, k, e), k, e) =~= k2e.insert(k, list_of(k2e, k)));
}

/// A weapon's kind and class ids.
#[derive(Clone, Copy, PartialEq, Eq, Debug)]
pub struct WeaponDesc {
    pub kind: KindId,
    pub class: ClassId,
}

/// The weapons attached to a craft, by kind and by class.
///
/// The running mean of the projectile speeds of these weapons is a
/// floating-point figure and is kept by the engine-side code.
pub struct CraftWeaponsIndex {
    pub entt_to_desc: IdPairMap,
    pub class_to_entt: IdListMap,
    pub kind_to_entt: IdListMap,
}

/// The kind of each indexed weapon.
pub open spec fn kinds_of(d: Map<u64, (u64, u64)>) -> Map<u64, u64> {
    d.map_values(|p: (u64, u64)| p.0)
}

/// The class of each indexed weapon.
pub open spec fn classes_of(d: Map<u64, (u64, u64)>) -> Map<u64, u64> {
    d.map_values(|p: (u64, u64)| p.1)
}

/// Both directions of a weapons index agree, for kinds and for classes.
pub open spec fn weapons_consistent(
    d: Map<u64, (u64, u64)>,
    c2e: Map<u64, Seq<u64>>,
    k2e: Map<u64, Seq<u64>>,
) -> bool {
    index_consistent(kinds_of(d), k2e) && index_consistent(classes_of(d), c2e)
}

/// The three maps of a weapons index after `remove(e)`.
pub open spec fn weapons_after_remove(
    d: Map<u64, (u64, u64)>,
    c2e: Map<u64, Seq<u64>>,
    k2e: Map<u64, Seq<u64>>,
    e: u64,
) -> (Map<u64, (u64, u64)>, Map<u64, Seq<u64>>, Map<u64, Seq<u64>>) {
    if d.dom().contains(e) {
        (d.remove(e), unfiled_from(c2e, d[e].1, e), unfiled_from(k2e, d[e].0, e))
    } else {
        (d, c2e, k2e)
    }
}

impl CraftWeaponsIndex {
    /// An empty index.
    pub fn new() -> (r: CraftWeaponsIndex)
        ensures
            r.entt_to_desc@ == Map::<u64, (u64, u64)>::empty(),
            r.class_to_entt@ == Map::<u64, Seq<u64>>::empty(),
            r.kind_to_entt@ == Map::<u64, Seq<u64>>::empty(),
    {
        let r = CraftWeaponsIndex {
            entt_to_desc: IdPairMap::new(),
            class_to_entt: IdListMap::new(),
            kind_to_entt: IdListMap::new(),
        };
        assert(r.entt_to_desc@ =~= Map::<u64, (u64, u64)>::empty());
        assert(r.class_to_entt@ =~= Map::<u64, Seq<u64>>::empty());
        assert(r.kind_to_entt@ =~= Map::<u64, Seq<u64>>::empty());
        r
    }

    /// The weapons of kind `kind`, if that kind ever had one filed.
    pub fn kind(&self, kind: KindId) -> (r: Option<Vec<EntityId>>)
        ensures
            r.is_some() == self.kind_to_entt@.dom().contains(kind),
            r matches Some(v) ==> v@ == self.kind_to_entt@[kind],
    {
        self.kind_to_entt.get(kind)
    }

    /// Files the weapon `entt` under its kind and its class.
    pub fn insert(&mut self, entt: EntityId, desc: WeaponDesc)
        requires
            fits(old(self).entt_to_desc@),
            fits(old(self).class_to_entt@),
            fits(old(self).kind_to_entt@),
        ensures
            final(self).entt_to_desc@ == old(self).entt_to_desc@.insert(entt, (desc.kind, desc.class)),
            final(self).class_to_entt@ == filed_under(old(self).class_to_entt@, desc.class, entt),
            final(self).kind_to_entt@ == filed_under(old(self).kind_to_entt@, desc.kind, entt),
    {
        file_under(&mut self.kind_to_entt, desc.kind, entt);
        file_under(&mut self.class_to_entt, desc.class, entt);
        self.entt_to_desc.insert(entt, (desc.kind, desc.class));
    }

    /// Unfiles the weapon `entt` from its kind and its class.
    pub fn remove(&mut self, entt: EntityId)
        ensures
            (final(self).entt_to_desc@, final(self).class_to_entt@, final(self).kind_to_entt@)
                == weapons_after_remove(
                old(self).entt_to_desc@,
                old(self).class_to_entt@,
                old(self).kind_to_entt@,
                entt,
            ),
    {
        if let Some(desc) = self.entt_to_desc.remove(entt) {
            let (kind, class) = desc;
            unfile_from(&mut self.kind_to_entt, kind, entt);
            unfile_from(&mut self.class_to_entt, class, entt);
        }
    }

    /// Every indexed weapon, once each.
    pub fn weapons(&self) -> (r: Vec<EntityId>)
        ensures
            r@.no_duplicates(),
            r@.to_set() == self.entt_to_desc@.dom(),
    {
        self.entt_to_desc.keys()
    }
}

/// Filing a weapon that is not yet indexed keeps a weapons index consistent.
pub proof fn lemma_weapons_insert_keeps_consistency(
    d: Map<u64, (u64, u64)>,
    c2e: Map<u64, Seq<u64>>,
    k2e: Map<u64, Seq<u64>>,
    e: u64,
    desc: WeaponDesc,
)
    requires
        weapons_consistent(d, c2e, k2e),
        !d.dom().contains(e),
    ensures
        weapons_consistent(
            d.insert(e, (desc.kind, desc.class)),
            filed_under(c2e, desc.class, e),
            filed_under(k2e, desc.kind, e),
        ),
{
    let d2 = d.insert(e, (desc.kind, desc.class));
    assert(kinds_of(d2) =~= kinds_of(d).insert(e, desc.kind));
    assert(classes_of(d2) =~= classes_of(d).insert(e, desc.class));
    lemma_file_keeps_consistency(kinds_of(d), k2e, e, desc.kind);
    lemma_file_keeps_consistency(classes_of(d), c2e, e, desc.class);
}

/// Removing a weapon keeps a weapons index consistent.
pub proof fn lemma_weapons_remove_keeps_consistency(
    d: Map<u64, (u64, u64)>,
    c2e: Map<u64, Seq<u64>>,
    k2e: Map<u64, Seq<u64>>,
    e: u64,
)
    requires
        weapons_consistent(d, c2e, k2e),
    ensures
        weapons_consistent(
            weapons_after_remove(d, c2e, k2e, e).0,
            weapons_after_remove(d, c2e, k2e, e).1,
            weapons_after_remove(d, c2e, k2e, e).2,
        ),
{
    if d.dom().contains(e) {
        assert(kinds_of(d.remove(e)) =~= kinds_of(d).remove(e));
        assert(classes_of(d.remove(e)) =~= classes_of(d).remove(e));
        assert(kinds_of(d).dom().contains(e) && kinds_of(d)[e] == d[e].0);
        assert(classes_of(d).dom().contains(e) && classes_of(d)[e] == d[e].1);
        lemma_unfile_keeps_consistency(kinds_of(d), k2e, e);
        lemma_unfile_keeps_consistency(classes_of(d), c2e, e);
    }
}

/// Removing a weapon right after filing it, when it was not indexed before,
/// gives back the index as it was, except that its kind and its class are
/// left with empty lists if they had none.
pub proof fn lemma_weapons_remove_undoes_insert(
    d: Map<u64, (u64, u64)>,
    c2e: Map<u64, Seq<u64>>,
    k2e: Map<u64, Seq<u64>>,
    e: u64,
    desc: WeaponDesc,
)
    requires
        weapons_consistent(d, c2e, k2e),
        !d.dom().contains(e),
    ensures
        weapons_after_remove(
            d.insert(e, (desc.kind, desc.class)),
            filed_under(c2e, desc.class, e),
            filed_under(k2e, desc.kind, e),
            e,
        ) == (
            d,
            c2e.insert(desc.class, list_of(c2e, desc.class)),
            k2e.insert(desc.kind, list_of(k2e, desc.kind)),
        ),
{
    assert(!kinds_of(d).dom().contains(e));
    assert(!classes_of(d).dom().contains(e));
    lemma_unfiled_entity_unlisted(kinds_of(d), k2e, e, desc.kind);
    lemma_unfiled_entity_unlisted(classes_of(d), c2e, e, desc.class);
    lemma_swap_remove_pushed(list_of(k2e, desc.kind), e);
    lemma_swap_remove_pushed(list_of(c2e, desc.class), e);
    assert(d.insert(e, (desc.kind, desc.class)).remove(e) =~= d);
    assert(unfiled_from(filed_under(k2e, desc.kind, e), desc.kind, e) =~= k2e.insert(
        desc.kind,
        list_of(k2e, desc.kind),
    ));
    assert(unfiled_from(filed_under(c2e, desc.class, e), desc.class, e) =~= c2e.insert(
        desc.class,
        list_of(c2e, desc.class),
    ));
}

/// The weapons to try firing: every weapon of the craft when the trigger
/// (the player's fire keys, or a strategy's fire order) is on, none
/// otherwise. Whether each one can fire yet is the engine-side clock's call.
pub fn triggered_weapons(index: &CraftWeaponsIndex, trigger: bool) -> (r: Vec<EntityId>)
    ensures
        r@.no_duplicates(),
        trigger ==> r@.to_set() == index.entt_to_desc@.dom(),
        !trigger ==> r@.len() == 0,
{
    if trigger {
        index.weapons()
    } else {
        Vec::new()
    }
}

} // verus!
