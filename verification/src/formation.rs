//! Formation slots of a flock: which boids hold a slot, the slots added
//! and removed since last served, and the bookkeeping that follows the
//! flock's membership events.

use crate::compose::{composed, reusable_routine, SteeringRoutineComposer};
use crate::flock::{change_events, logged_members, FlockChangeEvent, FlockMembersView};
use crate::idmap::{fits, map_room, IdMap};
use crate::ids::{EntityId, KindId};
use crate::sensors::SteeringRoutinesIndex;
use crate::svec::{push_room, Ids2, Ids4, Pairs2};
use vstd::prelude::*;

verus! {

/// What fills a formation slot.
#[derive(Clone, Copy, PartialEq, Eq, Debug)]
pub enum FormationSlotKind {
    Boid,
    Anchor,
}

/// The description of a formation slot.
#[derive(Clone, Copy, PartialEq, Eq, Debug)]
pub struct FormationSlotDesc {
    pub kind: FormationSlotKind,
}

/// The code under which a slot kind is stored.
pub open spec fn kind_code(kind: FormationSlotKind) -> u64 {
    match kind {
        FormationSlotKind::Boid => 0,
        FormationSlotKind::Anchor => 1,
    }
}

/// The slot kind that a stored code stands for.
pub open spec fn code_kind(code: u64) -> FormationSlotKind {
    if code == 0 {
        FormationSlotKind::Boid
    } else {
        FormationSlotKind::Anchor
    }
}

fn encode_kind(kind: FormationSlotKind) -> (r: u64)
    ensures
        r == kind_code(kind),
        code_kind(r) == kind,
{
    match kind {
        FormationSlotKind::Boid => 0,
        FormationSlotKind::Anchor => 1,
    }
}

fn decode_kind(code: u64) -> (r: FormationSlotKind)
    ensures
        r == code_kind(code),
{
    if code == 0 {
        FormationSlotKind::Boid
    } else {
        FormationSlotKind::Anchor
    }
}

/// The slots of a formation, and the slots added and removed since the
/// formation butler last served them.
pub struct FormationSlots {
    slots: IdMap,
    added: Ids4,
    removed: Pairs2,
}

/// What a [`FormationSlots`] holds.
pub struct FormationSlotsView {
    pub slots: Map<EntityId, FormationSlotKind>,
    pub added: Seq<EntityId>,
    pub removed: Seq<(EntityId, FormationSlotKind)>,
}

impl View for FormationSlots {
    type V = FormationSlotsView;

    closed spec fn view(&self) -> FormationSlotsView {
        FormationSlotsView {
            slots: self.slots@.map_values(|c: u64| code_kind(c)),
            added: self.added@,
            removed: self.removed@.map_values(|p: (u64, u64)| (p.0, code_kind(p.1))),
        }
    }
}

/// The slot description that an optional stored kind stands for.
pub open spec fn desc_of(m: Map<EntityId, FormationSlotKind>, entt: EntityId) -> Option<FormationSlotDesc> {
    if m.dom().contains(entt) {
        Some(FormationSlotDesc { kind: m[entt] })
    } else {
        None
    }
}

impl FormationSlots {
    /// No slots and no pending changes.
    pub fn new() -> (r: FormationSlots)
        ensures
            r@.slots == Map::<EntityId, FormationSlotKind>::empty(),
            r@.added == Seq::<EntityId>::empty(),
            r@.removed == Seq::<(EntityId, FormationSlotKind)>::empty(),
    {
        let r = FormationSlots { slots: IdMap::new(), added: Ids4::new(), removed: Pairs2::new() };
        assert(r@.slots =~= Map::<EntityId, FormationSlotKind>::empty());
        assert(r@.removed =~= Seq::<(EntityId, FormationSlotKind)>::empty());
        r
    }

    /// Gives `entt` a slot of `kind` and logs it as added; hands back the
    /// description it replaced.
    pub fn insert(&mut self, entt: EntityId, kind: FormationSlotKind) -> (r: Option<FormationSlotDesc>)
        requires
            push_room(old(self)@.added.len()),
            fits(old(self)@.slots),
        ensures
            final(self)@.slots == old(self)@.slots.insert(entt, kind),
            final(self)@.added == old(self)@.added.push(entt),
            final(self)@.removed == old(self)@.removed,
            r == desc_of(old(self)@.slots, entt),
    {
        self.added.push(entt);
        let code = encode_kind(kind);
        assert(self@.slots.dom() =~= self.slots@.dom());
        let prev = self.slots.insert(entt, code);
        assert(self@.slots =~= old(self)@.slots.insert(entt, kind));
        match prev {
            Some(c) => Some(FormationSlotDesc { kind: decode_kind(c) }),
            None => None,
        }
    }

    /// The description of the slot of `entt`.
    pub fn get(&self, entt: EntityId) -> (r: Option<FormationSlotDesc>)
        ensures
            r == desc_of(self@.slots, entt),
    {
        match self.slots.get(entt) {
            Some(c) => Some(FormationSlotDesc { kind: decode_kind(c) }),
            None => None,
        }
    }

    /// Takes the slot of `entt` away and logs it as removed; hands back its description.
    pub fn remove(&mut self, entt: EntityId) -> (r: Option<FormationSlotDesc>)
        requires
            push_room(old(self)@.removed.len()),
        ensures
            final(self)@.slots == old(self)@.slots.remove(entt),
            final(self)@.added == old(self)@.added,
            final(self)@.removed == (if old(self)@.slots.dom().contains(entt) {
                old(self)@.removed.push((entt, old(self)@.slots[entt]))
            } else {
                old(self)@.removed
            }),
            r == desc_of(old(self)@.slots, entt),
    {
        match self.slots.remove(entt) {
            Some(c) => {
                self.removed.push((entt, c));
                assert(self@.slots =~= old(self)@.slots.remove(entt));
                assert(self@.removed =~= old(self)@.removed.push((entt, old(self)@.slots[entt])));
                Some(FormationSlotDesc { kind: decode_kind(c) })
            },
            None => {
                assert(self@.slots =~= old(self)@.slots.remove(entt));
                None
            },
        }
    }

    /// Hands out the slots added since the last call, in order.
    pub fn added(&mut self) -> (r: Vec<EntityId>)
        ensures
            r@ == old(self)@.added,
            final(self)@.added == Seq::<EntityId>::empty(),
            final(self)@.slots == old(self)@.slots,
            final(self)@.removed == old(self)@.removed,
    {
        self.added.drain_all()
    }

    /// Hands out the slots removed since the last call, in order.
    pub fn removed(&mut self) -> (r: Vec<(EntityId, FormationSlotDesc)>)
        ensures
            r@.len() == old(self)@.removed.len(),
            forall|i: int|
                0 <= i < r@.len() ==> r@[i].0 == old(self)@.removed[i].0 && r@[i].1.kind == old(
                    self,
                )@.removed[i].1,
            final(self)@.removed == Seq::<(EntityId, FormationSlotKind)>::empty(),
            final(self)@.slots == old(self)@.slots,
            final(self)@.added == old(self)@.added,
    {
        let raw = self.removed.drain_all();
        assert(self@.removed =~= Seq::<(EntityId, FormationSlotKind)>::empty());
        let mut out: Vec<(EntityId, FormationSlotDesc)> = Vec::new();
        let mut ii: usize = 0;
        while ii < raw.len()
            invariant
                ii <= raw@.len(),
                raw@ == old(self).removed@,
                out@.len() == ii,
                forall|i: int| 0 <= i < ii ==> out@[i].0 == raw@[i].0 && out@[i].1.kind == code_kind(raw@[i].1),
            decreases raw@.len() - ii,
        {
            let (e, c) = raw[ii];
            out.push((e, FormationSlotDesc { kind: decode_kind(c) }));
            ii = ii + 1;
        }
        out
    }

    /// The number of slots.
    pub fn len(&self) -> (r: usize)
        ensures
            r == self@.slots.len(),
    {
        let r = self.slots.len();
        proof {
            assert(self@.slots.dom() =~= self.slots@.dom());
        }
        r
    }

    /// Whether any slot was added or removed since last served.
    pub fn has_pending_changes(&self) -> (r: bool)
        ensures
            r == (self@.added.len() > 0 || self@.removed.len() > 0),
    {
        self.added.len() > 0 || self.removed.len() > 0
    }
}

/// The boid strategies following a formation, by boid, and the anchor that
/// shadows the formation's leader.
pub struct FormationState {
    pub boid_strategies: IdMap,
    pub shadow_leader_anchor: Option<EntityId>,
}

impl FormationState {
    /// No followers and no anchor yet.
    pub fn new() -> (r: FormationState)
        ensures
            r.boid_strategies@ == Map::<EntityId, EntityId>::empty(),
            r.shadow_leader_anchor.is_none(),
    {
        let r = FormationState { boid_strategies: IdMap::new(), shadow_leader_anchor: None };
        assert(r.boid_strategies@ =~= Map::<EntityId, EntityId>::empty());
        r
    }
}

/// The joining part of the form strategy's butler: files `strategy` as the
/// follower strategy of `boid` in the formation, and picks the
/// avoid-collision routine for it to reuse: the first one filed under
/// `avoid_kind` in the boid's routine index, if there is one (otherwise a
/// new one is spawned). A kind filed in the index must have a routine:
/// the routines index drops a kind once its last routine goes.
pub fn form_join(
    routines: &SteeringRoutinesIndex,
    avoid_kind: KindId,
    state: &mut FormationState,
    boid: EntityId,
    strategy: EntityId,
) -> (r: Option<EntityId>)
    requires
        fits(old(state).boid_strategies@) || old(state).boid_strategies@.dom().contains(boid),
        routines.kind_to_entt@.dom().contains(avoid_kind) ==> routines.kind_to_entt@[avoid_kind].len() > 0,
    ensures
        final(state).boid_strategies@ == old(state).boid_strategies@.insert(boid, strategy),
        final(state).shadow_leader_anchor == old(state).shadow_leader_anchor,
        r == (if routines.kind_to_entt@.dom().contains(avoid_kind) {
            Some(routines.kind_to_entt@[avoid_kind][0])
        } else {
            None
        }),
{
    state.boid_strategies.insert(boid, strategy);
    reusable_routine(routines, avoid_kind)
}

/// The composer of the form strategy: collision avoidance first, then the
/// arrive routine (for the linear output) and the face routine (for the
/// angular output), whose weights the engine-side copy keeps.
pub fn form_composer(avoid_collision: EntityId, arrive: EntityId, face: EntityId) -> (r: SteeringRoutineComposer)
    ensures
        r is AvoidCollisionHelper,
        composed(r) == seq![avoid_collision, arrive, face],
{
    let mut routines = Ids2::new();
    routines.push(arrive);
    routines.push(face);
    let r = SteeringRoutineComposer::AvoidCollisionHelper { avoid_collision, routines };
    assert(composed(r) =~= seq![avoid_collision, arrive, face]);
    r
}

/// `slots` with a boid slot for every entity of `seated`.
pub open spec fn with_boid_slots(
    slots: Map<EntityId, FormationSlotKind>,
    seated: Seq<EntityId>,
) -> Map<EntityId, FormationSlotKind>
    decreases seated.len(),
{
    if seated.len() == 0 {
        slots
    } else {
        with_boid_slots(slots, seated.drop_last()).insert(seated.last(), FormationSlotKind::Boid)
    }
}

/// Whether a member other than the formation's center pivot.
pub open spec fn not_center(center: EntityId) -> spec_fn(EntityId) -> bool {
    |e: EntityId| e != center
}

/// Serving a new formation: gives every flock member except the center
/// pivot a boid slot, without logging the slots as added, and hands back
/// the members so seated, in order, for their outputs to be initialised.
pub fn seat_members(slots: &mut FormationSlots, members: &Vec<EntityId>, center: EntityId) -> (r: Vec<
    EntityId,
>)
    requires
        old(slots)@.slots.dom().finite(),
        map_room(old(slots)@.slots.len() + members@.len()),
    ensures
        r@ == members@.filter(not_center(center)),
        final(slots)@.slots == with_boid_slots(old(slots)@.slots, r@),
        final(slots)@.added == old(slots)@.added,
        final(slots)@.removed == old(slots)@.removed,
{
    assert(slots@.slots.dom() =~= slots.slots@.dom());
    let mut seated: Vec<EntityId> = Vec::new();
    let mut ii: usize = 0;
    while ii < members.len()
        invariant
            ii <= members@.len(),
            seated@ == members@.subrange(0, ii as int).filter(not_center(center)),
            slots@.slots == with_boid_slots(old(slots)@.slots, seated@),
            slots@.added == old(slots)@.added,
            slots@.removed == old(slots)@.removed,
            slots@.slots.len() <= old(slots)@.slots.len() + ii,
            map_room(old(slots)@.slots.len() + members@.len()),
            slots@.slots.dom().finite(),
        decreases members@.len() - ii,
    {
        let m = members[ii];
        proof {
            assert(members@.subrange(0, ii + 1) =~= members@.subrange(0, ii as int).push(m));
            members@.subrange(0, ii as int).lemma_filter_push(m, not_center(center));
        }
        let ghost old_dom = slots@.slots.dom();
        if m != center {
            assert(slots@.slots.dom() =~= slots.slots@.dom());
            slots.slots.insert(m, 0);
            assert(slots@.slots.dom() =~= slots.slots@.dom());
            assert(slots@.slots.dom() =~= old_dom.insert(m));
            seated.push(m);
            assert(slots@.slots =~= with_boid_slots(old(slots)@.slots, seated@)) by {
                assert(seated@.drop_last() =~= members@.subrange(0, ii as int).filter(not_center(center)));
            }
        }
        ii = ii + 1;
    }
    assert(members@.subrange(0, members@.len() as int) =~= members@);
    seated
}

/// Serving one flock membership event: a joining member gets a boid slot,
/// a leaving member loses its slot and its follower strategy. Neither is
/// logged as a slot change.
pub fn apply_flock_change(slots: &mut FormationSlots, state: &mut FormationState, event: FlockChangeEvent)
    requires
        fits(old(slots)@.slots),
    ensures
        final(slots)@.added == old(slots)@.added,
        final(slots)@.removed == old(slots)@.removed,
        final(state).shadow_leader_anchor == old(state).shadow_leader_anchor,
        match event {
            FlockChangeEvent::MemberAdded { entt } => {
                &&& final(slots)@.slots == old(slots)@.slots.insert(entt, FormationSlotKind::Boid)
                &&& final(state).boid_strategies@ == old(state).boid_strategies@
            },
            FlockChangeEvent::MemberRemoved { entt } => {
                &&& final(slots)@.slots == old(slots)@.slots.remove(entt)
                &&& final(state).boid_strategies@ == old(state).boid_strategies@.remove(entt)
            },
        },
{
    match event {
        FlockChangeEvent::MemberAdded { entt } => {
            assert(slots@.slots.dom() =~= slots.slots@.dom());
            slots.slots.insert(entt, 0);
            assert(slots@.slots =~= old(slots)@.slots.insert(entt, FormationSlotKind::Boid));
        },
        FlockChangeEvent::MemberRemoved { entt } => {
            slots.slots.remove(entt);
            state.boid_strategies.remove(entt);
            assert(slots@.slots =~= old(slots)@.slots.remove(entt));
        },
    }
}

/// The slots after serving the flock membership events `events` in
/// order: a joining member gets a boid slot, a leaving member loses its
/// slot.
pub open spec fn slots_after_events(
    slots: Map<EntityId, FormationSlotKind>,
    events: Seq<FlockChangeEvent>,
) -> Map<EntityId, FormationSlotKind>
    decreases events.len(),
{
    if events.len() == 0 {
        slots
    } else {
        let before = slots_after_events(slots, events.drop_last());
        match events.last() {
            FlockChangeEvent::MemberAdded { entt } => before.insert(entt, FormationSlotKind::Boid),
            FlockChangeEvent::MemberRemoved { entt } => before.remove(entt),
        }
    }
}

/// The follower strategies after serving `events` in order: a leaving
/// member's strategy is dropped.
pub open spec fn followers_after_events(followers: Map<EntityId, EntityId>, events: Seq<FlockChangeEvent>) -> Map<
    EntityId,
    EntityId,
>
    decreases events.len(),
{
    if events.len() == 0 {
        followers
    } else {
        let before = followers_after_events(followers, events.drop_last());
        match events.last() {
            FlockChangeEvent::MemberAdded { .. } => before,
            FlockChangeEvent::MemberRemoved { entt } => before.remove(entt),
        }
    }
}

/// The new-formant part of the formation butler: serves the flock's
/// membership events in order, none of them logged as a slot change.
pub fn serve_flock_events(slots: &mut FormationSlots, state: &mut FormationState, events: &Vec<FlockChangeEvent>)
    requires
        old(slots)@.slots.dom().finite(),
        map_room(old(slots)@.slots.len() + events@.len()),
    ensures
        final(slots)@.slots == slots_after_events(old(slots)@.slots, events@),
        final(state).boid_strategies@ == followers_after_events(old(state).boid_strategies@, events@),
        final(slots)@.added == old(slots)@.added,
        final(slots)@.removed == old(slots)@.removed,
        final(state).shadow_leader_anchor == old(state).shadow_leader_anchor,
{
    let mut ii: usize = 0;
    while ii < events.len()
        invariant
            ii <= events@.len(),
            slots@.slots == slots_after_events(old(slots)@.slots, events@.subrange(0, ii as int)),
            state.boid_strategies@ == followers_after_events(
                old(state).boid_strategies@,
                events@.subrange(0, ii as int),
            ),
            slots@.added == old(slots)@.added,
            slots@.removed == old(slots)@.removed,
            state.shadow_leader_anchor == old(state).shadow_leader_anchor,
            slots@.slots.dom().finite(),
            slots@.slots.len() <= old(slots)@.slots.len() + ii,
            map_room(old(slots)@.slots.len() + events@.len()),
        decreases events@.len() - ii,
    {
        let event = events[ii];
        proof {
            assert(events@.subrange(0, ii + 1).drop_last() =~= events@.subrange(0, ii as int));
            assert(events@.subrange(0, ii + 1).last() == event);
        }
        let ghost before = slots@.slots;
        apply_flock_change(slots, state, event);
        proof {
            match event {
                FlockChangeEvent::MemberAdded { entt } => {
                    assert(slots@.slots.dom() =~= before.dom().insert(entt));
                },
                FlockChangeEvent::MemberRemoved { entt } => {
                    assert(slots@.slots.dom() =~= before.dom().remove(entt));
                },
            }
        }
        ii = ii + 1;
    }
    assert(events@.subrange(0, events@.len() as int) =~= events@);
}

/// Serving `e1` and then `e2` is serving `e1 + e2`.
proof fn lemma_slots_after_concat(
    slots: Map<EntityId, FormationSlotKind>,
    e1: Seq<FlockChangeEvent>,
    e2: Seq<FlockChangeEvent>,
)
    ensures
        slots_after_events(slots, e1 + e2) == slots_after_events(slots_after_events(slots, e1), e2),
    decreases e2.len(),
{
    if e2.len() == 0 {
        assert(e1 + e2 =~= e1);
    } else {
        lemma_slots_after_concat(slots, e1, e2.drop_last());
        assert((e1 + e2).drop_last() =~= e1 + e2.drop_last());
        assert((e1 + e2).last() == e2.last());
    }
}

/// Serving the removals of `gone` takes every one of them out of the slots.
proof fn lemma_slots_after_removals(slots: Map<EntityId, FormationSlotKind>, gone: Seq<EntityId>)
    ensures
        slots_after_events(
            slots,
            gone.map_values(|e: EntityId| FlockChangeEvent::MemberRemoved { entt: e }),
        ).dom() == slots.dom().difference(gone.to_set()),
    decreases gone.len(),
{
    let evs = gone.map_values(|e: EntityId| FlockChangeEvent::MemberRemoved { entt: e });
    if gone.len() == 0 {
        assert(slots.dom().difference(gone.to_set()) =~= slots.dom());
    } else {
        let rest = gone.drop_last();
        lemma_slots_after_removals(slots, rest);
        assert(evs.drop_last() =~= rest.map_values(|e: EntityId| FlockChangeEvent::MemberRemoved { entt: e }));
        assert(rest.push(gone.last()) =~= gone);
        rest.lemma_push_to_set_commute(gone.last());
        assert(slots_after_events(slots, evs).dom() =~= slots.dom().difference(gone.to_set()));
    }
}

/// Serving the additions of `joined` gives every one of them a slot.
proof fn lemma_slots_after_additions(slots: Map<EntityId, FormationSlotKind>, joined: Seq<EntityId>)
    ensures
        slots_after_events(
            slots,
            joined.map_values(|e: EntityId| FlockChangeEvent::MemberAdded { entt: e }),
        ).dom() == slots.dom().union(joined.to_set()),
    decreases joined.len(),
{
    let evs = joined.map_values(|e: EntityId| FlockChangeEvent::MemberAdded { entt: e });
    if joined.len() == 0 {
        assert(slots.dom().union(joined.to_set()) =~= slots.dom());
    } else {
        let rest = joined.drop_last();
        lemma_slots_after_additions(slots, rest);
        assert(evs.drop_last() =~= rest.map_values(|e: EntityId| FlockChangeEvent::MemberAdded { entt: e }));
        assert(rest.push(joined.last()) =~= joined);
        rest.lemma_push_to_set_commute(joined.last());
        assert(slots_after_events(slots, evs).dom() =~= slots.dom().union(joined.to_set()));
    }
}

/// Serving a flock's change events (every logged removal, then every
/// logged addition) takes the removed members out of the formation's slots
/// and then gives the added ones a slot. So when the slots were held by
/// the members the flock had when its logs were last drained, and the logs
/// account for its members, the slots end up held by exactly its current
/// members.
pub proof fn lemma_served_slots_follow_members(
    slots: Map<EntityId, FormationSlotKind>,
    base: Set<EntityId>,
    v: FlockMembersView,
)
    requires
        v.members.to_set() == logged_members(base, v),
    ensures
        slots_after_events(slots, change_events(v.removed, v.added)).dom() == slots.dom().difference(
            v.removed.to_set(),
        ).union(v.added.to_set()),
        slots.dom() == base ==> slots_after_events(slots, change_events(v.removed, v.added)).dom()
            == v.members.to_set(),
{
    let rm = v.removed.map_values(|e: EntityId| FlockChangeEvent::MemberRemoved { entt: e });
    let ad = v.added.map_values(|e: EntityId| FlockChangeEvent::MemberAdded { entt: e });
    assert(change_events(v.removed, v.added) == rm + ad);
    lemma_slots_after_concat(slots, rm, ad);
    lemma_slots_after_removals(slots, v.removed);
    lemma_slots_after_additions(slots_after_events(slots, rm), v.added);
}

/// The order in which the formation update hands out positions: every slot
/// holder but the center pivot, once each, in the slot map's iteration
/// order. Its length is the formation's member count.
pub fn formant_order(slots: &FormationSlots, center: EntityId) -> (r: Vec<EntityId>)
    ensures
        r@.no_duplicates(),
        r@.to_set() == slots@.slots.dom().remove(center),
        r@.len() == (if slots@.slots.dom().contains(center) {
            slots@.slots.len() - 1
        } else {
            slots@.slots.len() as int
        }),
{
    let keys = slots.slots.keys();
    let mut out: Vec<EntityId> = Vec::new();
    let mut ii: usize = 0;
    while ii < keys.len()
        invariant
            ii <= keys@.len(),
            keys@.no_duplicates(),
            out@ == keys@.subrange(0, ii as int).filter(not_center(center)),
            out@.no_duplicates(),
            forall|x: EntityId| out@.contains(x) <==> (keys@.subrange(0, ii as int).contains(x) && x != center),
        decreases keys@.len() - ii,
    {
        let k = keys[ii];
        proof {
            assert(keys@.subrange(0, ii + 1) =~= keys@.subrange(0, ii as int).push(k));
            keys@.subrange(0, ii as int).lemma_filter_push(k, not_center(center));
            assert(!keys@.subrange(0, ii as int).contains(k));
        }
        let ghost old_out = out@;
        assert(!old_out.contains(k));
        if k != center {
            out.push(k);
        }
        proof {
            let pre = keys@.subrange(0, ii as int);
            let post = keys@.subrange(0, ii + 1);
            assert forall|x: EntityId| out@.contains(x) <==> (post.contains(x) && x != center) by {
                if post.contains(x) && x != center && x != k {
                    let j = choose|j: int| 0 <= j < post.len() && #[trigger] post[j] == x;
                    assert(pre[j] == x);
                }
                if out@.contains(x) && x == k {
                    assert(post[ii as int] == x);
                }
                if out@.contains(x) && x != k {
                    assert(old_out.contains(x));
                    assert(pre.contains(x));
                    let j = choose|j: int| 0 <= j < pre.len() && #[trigger] pre[j] == x;
                    assert(post[j] == x);
                }
            }
        }
        ii = ii + 1;
    }
    assert(keys@.subrange(0, keys@.len() as int) =~= keys@);
    assert(out@.to_set() =~= slots@.slots.dom().remove(center)) by {
        assert(slots@.slots.dom() =~= slots.slots@.dom());
        assert forall|x: EntityId| out@.to_set().contains(x) <==> slots@.slots.dom().remove(center).contains(x) by {
            assert(keys@.to_set().contains(x) <==> keys@.contains(x));
        }
    }
    proof {
        out@.unique_seq_to_set();
        keys@.unique_seq_to_set();
        vstd::seq_lib::seq_to_set_is_finite(keys@);
        assert(slots@.slots.dom() =~= slots.slots@.dom());
        assert(slots@.slots.dom() == keys@.to_set());
    }
    out
}

/// The slot that `insert` gives is the one `get` and `remove` then report.
pub proof fn lemma_slot_read_after_insert(slots: Map<EntityId, FormationSlotKind>, e: EntityId, kind: FormationSlotKind)
    ensures
        desc_of(slots.insert(e, kind), e) == Some(FormationSlotDesc { kind }),
{
}

/// A member that joins and then leaves a flock, without holding a slot
/// before, leaves the formation's slots as they were.
pub proof fn lemma_join_then_leave_restores_slots(slots: Map<EntityId, FormationSlotKind>, e: EntityId)
    requires
        !slots.dom().contains(e),
    ensures
        slots.insert(e, FormationSlotKind::Boid).remove(e) == slots,
{
    assert(slots.insert(e, FormationSlotKind::Boid).remove(e) =~= slots);
}

} // verus!
