//! Composition of steering routines: which routines a composer runs, which
//! of them the composing routine must activate or deactivate, and which
//! routine's output (or which weighted sum) becomes the composed output.
//!
//! The outputs themselves are floating-point vectors and the routine
//! weights are floating-point too: both stay with the engine-side code,
//! which tells this module, per composed routine, what its lookup gave.

use crate::idmap::{map_room, IdSet};
use crate::ids::{EntityId, KindId};
use crate::sensors::SteeringRoutinesIndex;
use crate::svec::{push_room, Ids2, Ids4};
use vstd::prelude::*;

verus! {

/// How a boid composes its steering routines. The weighted lists keep
/// their routine ids here; their weights are kept, position for position,
/// by the engine-side copy.
#[allow(inconsistent_fields)]
pub enum SteeringRoutineComposer {
    /// No routine is composed.
    Empty,
    Single { entt: EntityId },
    /// Linear sum of the routine outputs.
    WeightSummed { routines: Ids2 },
    /// The first routine that returns a non zero value will be used.
    PriorityOverride { routines: Ids4 },
    /// A variant of WeightSummed except with a single priority checked
    /// routine that goes first.
    AvoidCollisionHelper { avoid_collision: EntityId, routines: Ids2 },
}

/// Every routine that `c` composes, in order.
pub open spec fn composed(c: SteeringRoutineComposer) -> Seq<EntityId> {
    match c {
        SteeringRoutineComposer::Empty => Seq::empty(),
        SteeringRoutineComposer::Single { entt } => seq![entt],
        SteeringRoutineComposer::WeightSummed { routines } => routines@,
        SteeringRoutineComposer::PriorityOverride { routines } => routines@,
        SteeringRoutineComposer::AvoidCollisionHelper { avoid_collision, routines } => seq![
            avoid_collision,
        ] + routines@,
    }
}

/// Copies the ids of `v` into a plain vector.
fn ids2_to_vec(v: &Ids2) -> (r: Vec<EntityId>)
    ensures
        r@ == v@,
{
    let mut out: Vec<EntityId> = Vec::new();
    let mut ii: usize = 0;
    while ii < v.len()
        invariant
            ii <= v@.len(),
            out@ == v@.subrange(0, ii as int),
        decreases v@.len() - ii,
    {
        out.push(v.get(ii));
        assert(v@.subrange(0, ii + 1) =~= v@.subrange(0, ii as int).push(v@[ii as int]));
        ii = ii + 1;
    }
    assert(v@.subrange(0, v@.len() as int) =~= v@);
    out
}

impl SteeringRoutineComposer {
    /// A composer summing the outputs of `routines` by their weights.
    pub fn weight_summed(routines: Vec<EntityId>) -> (r: SteeringRoutineComposer)
        requires
            push_room(routines@.len()),
        ensures
            r is WeightSummed,
            composed(r) == routines@,
    {
        let mut ids = Ids2::new();
        let mut ii: usize = 0;
        while ii < routines.len()
            invariant
                ii <= routines@.len(),
                push_room(routines@.len()),
                ids@ == routines@.subrange(0, ii as int),
            decreases routines@.len() - ii,
        {
            ids.push(routines[ii]);
            assert(routines@.subrange(0, ii + 1) =~= routines@.subrange(0, ii as int).push(routines@[ii as int]));
            ii = ii + 1;
        }
        assert(routines@.subrange(0, routines@.len() as int) =~= routines@);
        SteeringRoutineComposer::WeightSummed { routines: ids }
    }

    /// A composer taking the output of the first of `routines` whose output
    /// is not zero.
    pub fn priority_override(routines: Vec<EntityId>) -> (r: SteeringRoutineComposer)
        ensures
            r is PriorityOverride,
            composed(r) == routines@,
    {
        SteeringRoutineComposer::PriorityOverride { routines: Ids4::from_vec(routines) }
    }

    /// A composer that lets `avoid_collision` override, and otherwise sums
    /// the outputs of `routines` by their weights.
    pub fn avoid_collision_helper(avoid_collision: EntityId, routines: Vec<EntityId>) -> (r: SteeringRoutineComposer)
        requires
            push_room(routines@.len()),
        ensures
            r is AvoidCollisionHelper,
            composed(r) == seq![avoid_collision] + routines@,
    {
        match SteeringRoutineComposer::weight_summed(routines) {
            SteeringRoutineComposer::WeightSummed { routines: ids } => {
                SteeringRoutineComposer::AvoidCollisionHelper { avoid_collision, routines: ids }
            },
            _ => SteeringRoutineComposer::Empty,
        }
    }

    /// All the routines currently being composed, in order.
    pub fn all_routines(&self) -> (r: Ids4)
        ensures
            r@ == composed(*self),
    {
        match self {
            SteeringRoutineComposer::Empty => Ids4::new(),
            SteeringRoutineComposer::Single { entt } => {
                let mut v: Vec<EntityId> = Vec::new();
                v.push(*entt);
                assert(v@ =~= seq![*entt]);
                Ids4::from_vec(v)
            },
            SteeringRoutineComposer::WeightSummed { routines } => Ids4::from_vec(ids2_to_vec(routines)),
            SteeringRoutineComposer::PriorityOverride { routines } => routines.clone_ids(),
            SteeringRoutineComposer::AvoidCollisionHelper { avoid_collision, routines } => {
                let mut v: Vec<EntityId> = Vec::new();
                v.push(*avoid_collision);
                let mut rest = ids2_to_vec(routines);
                v.append(&mut rest);
                assert(v@ =~= seq![*avoid_collision] + routines@);
                Ids4::from_vec(v)
            },
        }
    }
}

/// What looking up a composed routine's outputs gave.
#[derive(Clone, Copy, PartialEq, Eq, Debug)]
pub enum RoutineLookup {
    /// The routine was not found.
    Missing,
    /// The routine has neither a linear nor an angular output.
    NoOutputs,
    /// The routine's outputs are (within epsilon) zero.
    Zero,
    /// The routine's outputs are not zero.
    NonZero,
}

/// Where the composed output comes from.
#[derive(Clone, Copy, PartialEq, Eq, Debug)]
pub enum CompositionPlan {
    /// The default output (both linear and angular parts zero).
    Default,
    /// The output of the routine `entt`.
    Take { entt: EntityId },
    /// The weighted sum of the outputs of the composer's weighted list.
    SumWeighted,
}

/// Whether a lookup gave outputs.
pub open spec fn has_outputs(l: RoutineLookup) -> bool {
    l is Zero || l is NonZero
}

/// Whether every lookup gave outputs.
pub open spec fn all_have_outputs(ls: Seq<RoutineLookup>) -> bool {
    forall|i: int| 0 <= i < ls.len() ==> has_outputs(#[trigger] ls[i])
}

/// The priority pick over `routines` with lookups `ls`: the first routine
/// whose output is not zero; a routine without outputs ends the search
/// with the default.
pub open spec fn priority_pick(routines: Seq<EntityId>, ls: Seq<RoutineLookup>) -> CompositionPlan
    decreases routines.len(),
{
    if routines.len() == 0 || ls.len() == 0 {
        CompositionPlan::Default
    } else {
        match ls[0] {
            RoutineLookup::Zero => priority_pick(routines.drop_first(), ls.drop_first()),
            RoutineLookup::NonZero => CompositionPlan::Take { entt: routines[0] },
            _ => CompositionPlan::Default,
        }
    }
}

/// The plan of the composing routine for composer `c`, where `ls[i]` is
/// what the lookup of `composed(c)[i]` gave.
pub open spec fn plan_for(c: SteeringRoutineComposer, ls: Seq<RoutineLookup>) -> CompositionPlan {
    match c {
        SteeringRoutineComposer::Empty => CompositionPlan::Default,
        SteeringRoutineComposer::Single { entt } => if has_outputs(ls[0]) {
            CompositionPlan::Take { entt }
        } else {
            CompositionPlan::Default
        },
        SteeringRoutineComposer::WeightSummed { .. } => if all_have_outputs(ls) {
            CompositionPlan::SumWeighted
        } else {
            CompositionPlan::Default
        },
        SteeringRoutineComposer::PriorityOverride { routines } => priority_pick(routines@, ls),
        SteeringRoutineComposer::AvoidCollisionHelper { avoid_collision, .. } => if ls[0] is NonZero {
            CompositionPlan::Take { entt: avoid_collision }
        } else if all_have_outputs(ls.drop_first()) {
            CompositionPlan::SumWeighted
        } else {
            CompositionPlan::Default
        },
    }
}

/// Whether every lookup from position `from` on gave outputs.
fn all_usable_from(ls: &Vec<RoutineLookup>, from: usize) -> (r: bool)
    requires
        from <= ls@.len(),
    ensures
        r == all_have_outputs(ls@.subrange(from as int, ls@.len() as int)),
{
    let mut ii: usize = from;
    while ii < ls.len()
        invariant
            from <= ii <= ls@.len(),
            forall|j: int| from <= j < ii ==> has_outputs(#[trigger] ls@[j]),
        decreases ls@.len() - ii,
    {
        match ls[ii] {
            RoutineLookup::Zero => {},
            RoutineLookup::NonZero => {},
            _ => {
                assert(!has_outputs(ls@.subrange(from as int, ls@.len() as int)[ii - from]));
                return false;
            },
        }
        ii = ii + 1;
    }
    true
}

/// The part of the composing routine's update that decides where the
/// composed output comes from, given what the lookup of each composed
/// routine gave (`lookups[i]` for `all_routines()[i]`).
pub fn composition_plan(composer: &SteeringRoutineComposer, lookups: &Vec<RoutineLookup>) -> (r: CompositionPlan)
    requires
        lookups@.len() == composed(*composer).len(),
    ensures
        r == plan_for(*composer, lookups@),
        *composer is Single ==> ((r == (CompositionPlan::Take { entt: composed(*composer)[0] })) <==> found_with_outputs(
            lookups@[0],
        )),
{
    proof {
        if *composer is Single {
            lemma_single_takes_its_routine(*composer, lookups@);
        }
    }
    match composer {
        SteeringRoutineComposer::Empty => CompositionPlan::Default,
        SteeringRoutineComposer::Single { entt } => {
            match lookups[0] {
                RoutineLookup::Zero => CompositionPlan::Take { entt: *entt },
                RoutineLookup::NonZero => CompositionPlan::Take { entt: *entt },
                _ => CompositionPlan::Default,
            }
        },
        SteeringRoutineComposer::WeightSummed { .. } => {
            assert(lookups@.subrange(0, lookups@.len() as int) =~= lookups@);
            if all_usable_from(lookups, 0) {
                CompositionPlan::SumWeighted
            } else {
                CompositionPlan::Default
            }
        },
        SteeringRoutineComposer::PriorityOverride { routines } => {
            assert(plan_for(*composer, lookups@) == priority_pick(routines@, lookups@));
            assert(routines@.subrange(0, routines@.len() as int) =~= routines@);
            assert(lookups@.subrange(0, lookups@.len() as int) =~= lookups@);
            let mut ii: usize = 0;
            while ii < routines.len()
                invariant
                    ii <= routines@.len(),
                    lookups@.len() == routines@.len(),
                    plan_for(*composer, lookups@) == priority_pick(routines@, lookups@),
                    priority_pick(routines@, lookups@) == priority_pick(
                        routines@.subrange(ii as int, routines@.len() as int),
                        lookups@.subrange(ii as int, lookups@.len() as int),
                    ),
                decreases routines@.len() - ii,
            {
                let ghost rs = routines@.subrange(ii as int, routines@.len() as int);
                let ghost ls = lookups@.subrange(ii as int, lookups@.len() as int);
                assert(rs[0] == routines@[ii as int] && ls[0] == lookups@[ii as int]);
                match lookups[ii] {
                    RoutineLookup::Zero => {
                        assert(rs.drop_first() =~= routines@.subrange(ii + 1, routines@.len() as int));
                        assert(ls.drop_first() =~= lookups@.subrange(ii + 1, lookups@.len() as int));
                    },
                    RoutineLookup::NonZero => {
                        return CompositionPlan::Take { entt: routines.get(ii) };
                    },
                    _ => {
                        return CompositionPlan::Default;
                    },
                }
                ii = ii + 1;
            }
            CompositionPlan::Default
        },
        SteeringRoutineComposer::AvoidCollisionHelper { avoid_collision, .. } => {
            match lookups[0] {
                RoutineLookup::NonZero => CompositionPlan::Take { entt: *avoid_collision },
                _ => {
                    assert(lookups@.subrange(1, lookups@.len() as int) =~= lookups@.drop_first());
                    if all_usable_from(lookups, 1) {
                        CompositionPlan::SumWeighted
                    } else {
                        CompositionPlan::Default
                    }
                },
            }
        },
    }
}

/// The composing routine's butler, for one composer that changed: the
/// routines in the craft's routine index that are no longer composed are
/// to be deactivated, and the composed routines not yet in the index are
/// to be activated. Each list holds every such routine once, in the hash
/// order of the sets the butler walks.
pub fn routine_activation(index: &SteeringRoutinesIndex, composer: &SteeringRoutineComposer) -> (r: (
    Vec<EntityId>,
    Vec<EntityId>,
))
    requires
        map_room(composed(*composer).len()),
    ensures
        r.0@.no_duplicates(),
        r.0@.to_set() == index.entt_to_kind@.dom().difference(composed(*composer).to_set()),
        r.1@.no_duplicates(),
        r.1@.to_set() == composed(*composer).to_set().difference(index.entt_to_kind@.dom()),
{
    let all = composer.all_routines();
    let mut cache = IdSet::new();
    let mut ii: usize = 0;
    while ii < all.len()
        invariant
            ii <= all@.len(),
            all@ == composed(*composer),
            map_room(all@.len()),
            cache@.finite(),
            cache@.len() <= ii,
            cache@ == all@.subrange(0, ii as int).to_set(),
        decreases all@.len() - ii,
    {
        let e = all.get(ii);
        proof {
            assert(all@.subrange(0, ii + 1) =~= all@.subrange(0, ii as int).push(e));
            all@.subrange(0, ii as int).lemma_push_to_set_commute(e);
        }
        cache.insert(e);
        ii = ii + 1;
    }
    assert(all@.subrange(0, all@.len() as int) =~= all@);
    let ghost composed_set = cache@;
    let keys = index.entt_to_kind.keys();
    let mut deactivate: Vec<EntityId> = Vec::new();
    let mut jj: usize = 0;
    while jj < keys.len()
        invariant
            jj <= keys@.len(),
            keys@.no_duplicates(),
            composed_set == composed(*composer).to_set(),
            keys@.to_set() == index.entt_to_kind@.dom(),
            cache@ == composed_set.difference(keys@.subrange(0, jj as int).to_set()),
            deactivate@.no_duplicates(),
            deactivate@.to_set() == keys@.subrange(0, jj as int).to_set().difference(composed_set),
        decreases keys@.len() - jj,
    {
        let k = keys[jj];
        let ghost pre = keys@.subrange(0, jj as int);
        proof {
            assert(keys@.subrange(0, jj + 1) =~= pre.push(k));
            pre.lemma_push_to_set_commute(k);
            assert(!pre.contains(k));
        }
        let ghost old_deact = deactivate@.to_set();
        assert(!pre.to_set().contains(k));
        if cache.contains(k) {
            assert(composed_set.contains(k));
            cache.remove(k);
            assert(deactivate@.to_set() == old_deact);
        } else {
            assert(!composed_set.contains(k));
            assert(!deactivate@.to_set().contains(k));
            let ghost old_seq = deactivate@;
            deactivate.push(k);
            proof {
                old_seq.lemma_push_to_set_commute(k);
                assert(deactivate@.to_set() =~= old_deact.insert(k));
            }
        }
        assert(cache@ =~= composed_set.difference(keys@.subrange(0, jj + 1).to_set()));
        assert(deactivate@.to_set() =~= keys@.subrange(0, jj + 1).to_set().difference(composed_set));
        jj = jj + 1;
    }
    assert(keys@.subrange(0, keys@.len() as int) =~= keys@);
    let activate = cache.drain_all();
    assert(activate@.to_set() =~= composed(*composer).to_set().difference(index.entt_to_kind@.dom()));
    assert(deactivate@.to_set() =~= index.entt_to_kind@.dom().difference(composed(*composer).to_set()));
    (deactivate, activate)
}

/// The routine of kind `kind` that a starting strategy reuses rather than
/// spawning its own: the first one filed under that kind in the boid's
/// routine index, if there is one. A kind filed in the index must have a
/// routine: the routines index drops a kind once its last routine goes.
pub fn reusable_routine(routines: &SteeringRoutinesIndex, kind: KindId) -> (r: Option<EntityId>)
    requires
        routines.kind_to_entt@.dom().contains(kind) ==> routines.kind_to_entt@[kind].len() > 0,
    ensures
        r == (if routines.kind_to_entt@.dom().contains(kind) {
            Some(routines.kind_to_entt@[kind][0])
        } else {
            None
        }),
{
    match routines.kind(kind) {
        Some(v) => Some(v[0]),
        None => None,
    }
}

/// Where a pursued quarry lies relative to the pursuer's heading.
#[derive(Clone, Copy, PartialEq, Eq, Debug)]
pub enum RelativeDirection {
    Ahead,
    Aside,
    Behind,
}

/// The routines of an attack-pursue strategy that its update switches between.
pub struct AttackPersueState {
    pub composer_routine: Option<EntityId>,
    pub intercept_routine: Option<EntityId>,
    pub intercept_wpn_speed: Option<EntityId>,
    pub avoid_collision: Option<EntityId>,
}

/// The decision of the attack-pursue strategy's update: out of attacking
/// range, chase with the plain intercept routine and hold fire; in range
/// with the quarry ahead, intercept at projectile speed and fire when
/// `aimed` (the heading all but on the quarry); otherwise chase without
/// firing. Hands back whether to fire and which routine to chase with.
pub fn attack_persue_choice(
    state: &AttackPersueState,
    in_range: bool,
    direction: RelativeDirection,
    aimed: bool,
) -> (r: (bool, EntityId))
    requires
        state.intercept_routine.is_some(),
        state.intercept_wpn_speed.is_some(),
    ensures
        r == (if in_range && direction == RelativeDirection::Ahead {
            (aimed, state.intercept_wpn_speed.unwrap())
        } else {
            (false, state.intercept_routine.unwrap())
        }),
{
    if !in_range {
        (false, state.intercept_routine.unwrap())
    } else {
        match direction {
            RelativeDirection::Ahead => (aimed, state.intercept_wpn_speed.unwrap()),
            RelativeDirection::Behind => (false, state.intercept_routine.unwrap()),
            RelativeDirection::Aside => (false, state.intercept_routine.unwrap()),
        }
    }
}

/// Puts `routine` second in a priority-override composer, the place the
/// attack-pursue strategy keeps its chasing routine in; that strategy only
/// ever builds priority-override composers.
pub fn set_chasing_routine(composer: &mut SteeringRoutineComposer, routine: EntityId)
    requires
        *old(composer) is PriorityOverride,
        composed(*old(composer)).len() >= 2,
    ensures
        *final(composer) is PriorityOverride,
        composed(*final(composer)) == composed(*old(composer)).update(1, routine),
{
    match composer {
        SteeringRoutineComposer::PriorityOverride { routines } => {
            routines.set(1, routine);
        },
        _ => {},
    }
}

/// Whether a lookup found the routine with outputs, zero or not.
pub open spec fn found_with_outputs(l: RoutineLookup) -> bool {
    l == RoutineLookup::Zero || l == RoutineLookup::NonZero
}

/// A single-routine composer takes its routine's output exactly when the
/// routine was found with outputs (a zero output included); when the
/// routine is missing or has no outputs, the default output is used.
pub proof fn lemma_single_takes_its_routine(c: SteeringRoutineComposer, ls: Seq<RoutineLookup>)
    requires
        c is Single,
        ls.len() == 1,
    ensures
        (plan_for(c, ls) == (CompositionPlan::Take { entt: composed(c)[0] })) <==> found_with_outputs(ls[0]),
        ls[0] == RoutineLookup::NonZero ==> plan_for(c, ls) == (CompositionPlan::Take { entt: composed(c)[0] }),
        !found_with_outputs(ls[0]) ==> plan_for(c, ls) == CompositionPlan::Default,
{
    assert(composed(c)[0] == c->entt);
}

/// A priority pick takes the `i`-th routine when its output is not zero
/// and every routine before it was found with a zero output.
proof fn lemma_pick_first_nonzero(routines: Seq<EntityId>, ls: Seq<RoutineLookup>, i: int)
    requires
        ls.len() == routines.len(),
        0 <= i < routines.len(),
        ls[i] == RoutineLookup::NonZero,
        forall|j: int| 0 <= j < i ==> ls[j] == RoutineLookup::Zero,
    ensures
        priority_pick(routines, ls) == (CompositionPlan::Take { entt: routines[i] }),
    decreases i,
{
    if i > 0 {
        assert(ls[0] == RoutineLookup::Zero);
        let rs = routines.drop_first();
        let l2 = ls.drop_first();
        assert forall|j: int| 0 <= j < i - 1 implies l2[j] == RoutineLookup::Zero by {
            assert(l2[j] == ls[j + 1]);
        }
        lemma_pick_first_nonzero(rs, l2, i - 1);
    }
}

/// A priority pick gives the default output when the `i`-th routine is
/// missing or has no outputs and every routine before it was found with a
/// zero output, or when every routine was found with a zero output.
proof fn lemma_pick_default(routines: Seq<EntityId>, ls: Seq<RoutineLookup>, i: int)
    requires
        ls.len() == routines.len(),
        0 <= i <= routines.len(),
        i < routines.len() ==> !found_with_outputs(ls[i]),
        forall|j: int| 0 <= j < i ==> ls[j] == RoutineLookup::Zero,
    ensures
        priority_pick(routines, ls) == CompositionPlan::Default,
    decreases i,
{
    if i > 0 {
        assert(ls[0] == RoutineLookup::Zero);
        let rs = routines.drop_first();
        let l2 = ls.drop_first();
        assert forall|j: int| 0 <= j < i - 1 implies l2[j] == RoutineLookup::Zero by {
            assert(l2[j] == ls[j + 1]);
        }
        if i < routines.len() {
            assert(l2[i - 1] == ls[i]);
        }
        lemma_pick_default(rs, l2, i - 1);
    }
}

/// A priority-override composer takes the output of the first routine
/// whose output is not zero, as long as every routine before it was found
/// with a zero output; a routine before that which is missing or has no
/// outputs, or all routines having zero outputs, gives the default output.
pub proof fn lemma_priority_takes_first_nonzero(c: SteeringRoutineComposer, ls: Seq<RoutineLookup>, i: int)
    requires
        c is PriorityOverride,
        ls.len() == composed(c).len(),
        0 <= i <= ls.len(),
        forall|j: int| 0 <= j < i ==> ls[j] == RoutineLookup::Zero,
    ensures
        i < ls.len() && ls[i] == RoutineLookup::NonZero ==> plan_for(c, ls) == (CompositionPlan::Take {
            entt: composed(c)[i],
        }),
        i < ls.len() && !found_with_outputs(ls[i]) ==> plan_for(c, ls) == CompositionPlan::Default,
        i == ls.len() ==> plan_for(c, ls) == CompositionPlan::Default,
{
    if let SteeringRoutineComposer::PriorityOverride { routines } = c {
        if i < ls.len() && ls[i] == RoutineLookup::NonZero {
            lemma_pick_first_nonzero(routines@, ls, i);
        }
        if i == ls.len() || (i < ls.len() && !found_with_outputs(ls[i])) {
            lemma_pick_default(routines@, ls, i);
        }
    }
}

/// A weight-summed composer sums the weighted outputs exactly when every
/// routine was found with outputs, and gives the default output otherwise.
pub proof fn lemma_weighted_sums_when_all_found(c: SteeringRoutineComposer, ls: Seq<RoutineLookup>)
    requires
        c is WeightSummed,
        ls.len() == composed(c).len(),
    ensures
        (plan_for(c, ls) == CompositionPlan::SumWeighted) <==> (forall|j: int|
            0 <= j < ls.len() ==> found_with_outputs(#[trigger] ls[j])),
        plan_for(c, ls) != CompositionPlan::SumWeighted ==> plan_for(c, ls) == CompositionPlan::Default,
{
}

/// An avoid-collision helper takes the collision-avoidance routine's
/// output when it is not zero; otherwise it sums the weighted outputs of
/// the other routines exactly when each was found with outputs, and gives
/// the default output when one was not.
pub proof fn lemma_avoid_collision_overrides(c: SteeringRoutineComposer, ls: Seq<RoutineLookup>)
    requires
        c is AvoidCollisionHelper,
        ls.len() == composed(c).len(),
    ensures
        ls[0] == RoutineLookup::NonZero ==> plan_for(c, ls) == (CompositionPlan::Take {
            entt: composed(c)[0],
        }),
        ls[0] != RoutineLookup::NonZero ==> ((plan_for(c, ls) == CompositionPlan::SumWeighted) <==> (forall|
            j: int,
        | 1 <= j < ls.len() ==> found_with_outputs(#[trigger] ls[j]))),
        ls[0] != RoutineLookup::NonZero && plan_for(c, ls) != CompositionPlan::SumWeighted ==> plan_for(c, ls)
            == CompositionPlan::Default,
{
    if let SteeringRoutineComposer::AvoidCollisionHelper { avoid_collision, routines } = c {
        assert(composed(c)[0] == avoid_collision);
        if ls[0] != RoutineLookup::NonZero {
            let rest = ls.drop_first();
            assert((forall|j: int| 0 <= j < rest.len() ==> has_outputs(#[trigger] rest[j])) <==> (forall|j: int|
                1 <= j < ls.len() ==> found_with_outputs(#[trigger] ls[j]))) by {
                if forall|j: int| 0 <= j < rest.len() ==> has_outputs(#[trigger] rest[j]) {
                    assert forall|j: int| 1 <= j < ls.len() implies found_with_outputs(#[trigger] ls[j]) by {
                        assert(rest[j - 1] == ls[j]);
                        assert(has_outputs(rest[j - 1]));
                    }
                }
                if forall|j: int| 1 <= j < ls.len() ==> found_with_outputs(#[trigger] ls[j]) {
                    assert forall|j: int| 0 <= j < rest.len() implies has_outputs(#[trigger] rest[j]) by {
                        assert(rest[j] == ls[j + 1]);
                        assert(found_with_outputs(ls[j + 1]));
                    }
                }
            }
        }
    }
}

/// A priority pick only ever takes one of the routines it searched.
pub proof fn lemma_priority_pick_takes_listed(routines: Seq<EntityId>, ls: Seq<RoutineLookup>)
    ensures
        priority_pick(routines, ls) matches CompositionPlan::Take { entt } ==> routines.contains(entt),
    decreases routines.len(),
{
    if routines.len() > 0 && ls.len() > 0 {
        lemma_priority_pick_takes_listed(routines.drop_first(), ls.drop_first());
        if let CompositionPlan::Take { entt } = priority_pick(routines, ls) {
            if ls[0] is Zero {
                let j = choose|j: int| 0 <= j < routines.drop_first().len() && routines.drop_first()[j] == entt;
                assert(routines[j + 1] == entt);
            } else {
                assert(routines[0] == entt);
            }
        }
    }
}

/// The composed output only ever comes from a routine being composed.
pub proof fn lemma_plan_takes_composed(c: SteeringRoutineComposer, ls: Seq<RoutineLookup>)
    ensures
        plan_for(c, ls) matches CompositionPlan::Take { entt } ==> composed(c).contains(entt),
{
    match c {
        SteeringRoutineComposer::Single { entt } => {
            assert(composed(c)[0] == entt);
        },
        SteeringRoutineComposer::PriorityOverride { routines } => {
            lemma_priority_pick_takes_listed(routines@, ls);
        },
        SteeringRoutineComposer::AvoidCollisionHelper { avoid_collision, routines } => {
            assert(composed(c)[0] == avoid_collision);
        },
        _ => {},
    }
}

/// Once the butler's decision is carried out (the deactivated routines
/// leave the index's active set, the activated ones join it), the active
/// routines are exactly the composed ones.
pub proof fn lemma_activation_leaves_composed_active(indexed: Set<EntityId>, composed_set: Set<EntityId>)
    ensures
        indexed.difference(indexed.difference(composed_set)).union(composed_set.difference(indexed))
            == composed_set,
{
    assert(indexed.difference(indexed.difference(composed_set)).union(composed_set.difference(indexed))
        =~= composed_set);
}

} // verus!
