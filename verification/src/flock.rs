//! Flock membership with change tracking, and the events that tell the
//! flock's formation and strategies about joining and leaving members.

use crate::ids::{is_first_index, first_index, lemma_swap_remove_first_items, lemma_swap_remove_pushed, swap_remove_first, EntityId};
use crate::svec::{push_room, Ids4, Ids8};
use vstd::prelude::*;

verus! {

/// The members of a flock, and the members added and removed since the
/// change listener last looked.
pub struct FlockMembers {
    members: Ids8,
    added: Ids4,
    removed: Ids4,
}

/// What a [`FlockMembers`] holds.
pub struct FlockMembersView {
    pub members: Seq<EntityId>,
    pub added: Seq<EntityId>,
    pub removed: Seq<EntityId>,
}

impl View for FlockMembers {
    type V = FlockMembersView;

    closed spec fn view(&self) -> FlockMembersView {
        FlockMembersView { members: self.members@, added: self.added@, removed: self.removed@ }
    }
}

/// A change to the membership of a flock.
#[derive(Clone, Copy, PartialEq, Eq, Debug)]
pub enum FlockChangeEvent {
    MemberAdded { entt: EntityId },
    MemberRemoved { entt: EntityId },
}

/// The events that report the removals `removed` and then the additions
/// `added`, each list in its order.
pub open spec fn change_events(removed: Seq<EntityId>, added: Seq<EntityId>) -> Seq<FlockChangeEvent> {
    removed.map_values(|e: EntityId| FlockChangeEvent::MemberRemoved { entt: e }) + added.map_values(
        |e: EntityId| FlockChangeEvent::MemberAdded { entt: e },
    )
}

impl FlockMembers {
    /// A flock without members or pending changes.
    pub fn new() -> (r: FlockMembers)
        ensures
            r@.members == Seq::<EntityId>::empty(),
            r@.added == Seq::<EntityId>::empty(),
            r@.removed == Seq::<EntityId>::empty(),
    {
        FlockMembers { members: Ids8::new(), added: Ids4::new(), removed: Ids4::new() }
    }

    /// The number of members.
    pub fn len(&self) -> (r: usize)
        ensures
            r == self@.members.len(),
    {
        self.members.len()
    }

    /// The member at position `i`.
    pub fn get(&self, i: usize) -> (r: EntityId)
        requires
            i < self@.members.len(),
        ensures
            r == self@.members[i as int],
    {
        self.members.get(i)
    }

    /// Every member, in order.
    pub fn to_vec(&self) -> (r: Vec<EntityId>)
        ensures
            r@ == self@.members,
    {
        let mut out: Vec<EntityId> = Vec::new();
        let len = self.members.len();
        let mut ii: usize = 0;
        while ii < len
            invariant
                len == self@.members.len(),
                ii <= len,
                out@ == self@.members.subrange(0, ii as int),
            decreases len - ii,
        {
            out.push(self.members.get(ii));
            ii = ii + 1;
        }
        assert(self@.members.subrange(0, len as int) =~= self@.members);
        out
    }

    /// Adds `value` to the members and logs it as added.
    pub fn push(&mut self, value: EntityId)
        requires
            push_room(old(self)@.members.len()),
            push_room(old(self)@.added.len()),
        ensures
            final(self)@.members == old(self)@.members.push(value),
            final(self)@.added == old(self)@.added.push(value),
            final(self)@.removed == old(self)@.removed,
    {
        self.members.push(value);
        self.added.push(value);
    }

    /// Removes the first occurrence of `entt_to_remove` from the members,
    /// swapping the last member into its place, and logs it as removed.
    /// Reports whether it was a member.
    pub fn remove(&mut self, entt_to_remove: EntityId) -> (r: bool)
        requires
            push_room(old(self)@.removed.len()),
        ensures
            r == old(self)@.members.contains(entt_to_remove),
            final(self)@.members == swap_remove_first(old(self)@.members, entt_to_remove),
            final(self)@.added == old(self)@.added,
            final(self)@.removed == (if r {
                old(self)@.removed.push(entt_to_remove)
            } else {
                old(self)@.removed
            }),
    {
        let len = self.members.len();
        let mut ii: usize = 0;
        while ii < len
            invariant
                len == self@.members.len(),
                self@ == old(self)@,
                push_room(self@.removed.len()),
                ii <= len,
                forall|j: int| 0 <= j < ii ==> self@.members[j] != entt_to_remove,
            decreases len - ii,
        {
            if self.members.get(ii) == entt_to_remove {
                assert(is_first_index(self@.members, entt_to_remove, ii as int));
                assert(self@.members.contains(entt_to_remove));
                assert(first_index(self@.members, entt_to_remove) == ii as int);
                self.removed.push(entt_to_remove);
                self.members.swap_remove(ii);
                return true;
            }
            ii = ii + 1;
        }
        assert(!self@.members.contains(entt_to_remove));
        false
    }

    /// Hands out the members added since the last call, in order.
    pub fn added(&mut self) -> (r: Vec<EntityId>)
        ensures
            r@ == old(self)@.added,
            final(self)@.added == Seq::<EntityId>::empty(),
            final(self)@.members == old(self)@.members,
            final(self)@.removed == old(self)@.removed,
    {
        self.added.drain_all()
    }

    /// Hands out the members removed since the last call, in order.
    pub fn removed(&mut self) -> (r: Vec<EntityId>)
        ensures
            r@ == old(self)@.removed,
            final(self)@.removed == Seq::<EntityId>::empty(),
            final(self)@.members == old(self)@.members,
            final(self)@.added == old(self)@.added,
    {
        self.removed.drain_all()
    }
}

/// The part of the flock change listener that concerns one changed flock:
/// drains the logged removals and additions of `members` and turns them
/// into events, removals first.
pub fn take_change_events(members: &mut FlockMembers) -> (r: Vec<FlockChangeEvent>)
    ensures
        r@ == change_events(old(members)@.removed, old(members)@.added),
        final(members)@.members == old(members)@.members,
        final(members)@.added == Seq::<EntityId>::empty(),
        final(members)@.removed == Seq::<EntityId>::empty(),
{
    let removed = members.removed();
    let added = members.added();
    let mut events: Vec<FlockChangeEvent> = Vec::new();
    let mut ii: usize = 0;
    while ii < removed.len()
        invariant
            ii <= removed@.len(),
            events@ == removed@.subrange(0, ii as int).map_values(
                |e: EntityId| FlockChangeEvent::MemberRemoved { entt: e },
            ),
        decreases removed@.len() - ii,
    {
        events.push(FlockChangeEvent::MemberRemoved { entt: removed[ii] });
        assert(removed@.subrange(0, ii + 1) =~= removed@.subrange(0, ii as int).push(removed@[ii as int]));
        ii = ii + 1;
    }
    assert(removed@.subrange(0, removed@.len() as int) =~= removed@);
    let ghost n = events@.len();
    let mut jj: usize = 0;
    while jj < added.len()
        invariant
            jj <= added@.len(),
            n == removed@.len(),
            events@ == removed@.map_values(|e: EntityId| FlockChangeEvent::MemberRemoved { entt: e })
                + added@.subrange(0, jj as int).map_values(
                |e: EntityId| FlockChangeEvent::MemberAdded { entt: e },
            ),
        decreases added@.len() - jj,
    {
        events.push(FlockChangeEvent::MemberAdded { entt: added[jj] });
        assert(added@.subrange(0, jj + 1) =~= added@.subrange(0, jj as int).push(added@[jj as int]));
        jj = jj + 1;
    }
    assert(added@.subrange(0, added@.len() as int) =~= added@);
    events
}

/// The members that a flock's change logs account for: the members it had
/// when the logs were last drained (`base`), less the logged removals,
/// plus the logged additions.
pub open spec fn logged_members(base: Set<EntityId>, v: FlockMembersView) -> Set<EntityId> {
    base.difference(v.removed.to_set()).union(v.added.to_set())
}

/// Pushing a member keeps the change logs accounting for the members.
pub proof fn lemma_push_keeps_logs_accounting(base: Set<EntityId>, v: FlockMembersView, x: EntityId)
    requires
        v.members.to_set() == logged_members(base, v),
    ensures
        v.members.push(x).to_set() == logged_members(
            base,
            FlockMembersView { members: v.members.push(x), added: v.added.push(x), removed: v.removed },
        ),
{
    v.members.lemma_push_to_set_commute(x);
    v.added.lemma_push_to_set_commute(x);
    assert(v.members.push(x).to_set() =~= logged_members(
        base,
        FlockMembersView { members: v.members.push(x), added: v.added.push(x), removed: v.removed },
    ));
}

/// Removing a member that was not added since the logs were last drained
/// keeps the change logs accounting for the members, and keeps the members
/// free of repeats.
pub proof fn lemma_remove_keeps_logs_accounting(base: Set<EntityId>, v: FlockMembersView, x: EntityId)
    requires
        v.members.to_set() == logged_members(base, v),
        v.members.no_duplicates(),
        !v.added.contains(x),
    ensures
        swap_remove_first(v.members, x).no_duplicates(),
        swap_remove_first(v.members, x).to_set() == logged_members(
            base,
            FlockMembersView {
                members: swap_remove_first(v.members, x),
                added: v.added,
                removed: if v.members.contains(x) {
                    v.removed.push(x)
                } else {
                    v.removed
                },
            },
        ),
{
    lemma_swap_remove_first_items(v.members, x);
    if v.members.contains(x) {
        v.removed.lemma_push_to_set_commute(x);
        assert(!v.added.to_set().contains(x));
        assert(swap_remove_first(v.members, x).to_set() =~= base.difference(v.removed.push(x).to_set()).union(
            v.added.to_set(),
        ));
    } else {
        assert(!v.members.to_set().contains(x));
        assert(v.members.to_set().remove(x) =~= v.members.to_set());
    }
}

/// Removing an entity right after pushing it, when it was not a member,
/// finds it and gives back the members as they were.
pub proof fn lemma_remove_undoes_push(members: Seq<EntityId>, e: EntityId)
    requires
        !members.contains(e),
    ensures
        members.push(e).contains(e),
        swap_remove_first(members.push(e), e) == members,
{
    assert(members.push(e)[members.len() as int] == e);
    lemma_swap_remove_pushed(members, e);
}

} // verus!
