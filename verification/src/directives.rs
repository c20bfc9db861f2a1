//! Mind directives of boids and flocks, and the decisions that the minds
//! and flock strategies take on them: which strategy a directive calls for,
//! and which boids a flock strategy must re-direct.

use crate::compose::{composed, SteeringRoutineComposer};
use crate::flock::FlockChangeEvent;
use crate::formation::not_center;
use crate::ids::EntityId;
use crate::svec::Ids4;
use vstd::prelude::*;

verus! {

/// What a boid's mind has been told to do. The hold position and the
/// attacking range that two variants carry in the engine's copy are
/// floating-point and stay there; the decisions below never read them.
#[derive(Clone, Copy, PartialEq, Eq, Debug)]
pub enum BoidMindDirective {
    /// No directive: the boid runs no strategy.
    Unset,
    KeepGoingForward,
    SlaveToPlayerControl,
    HoldPosition,
    JoinFomation { formation: EntityId },
    FlyWithFlockCAS { flock_strategy_entt: EntityId },
    RunCircuit { initial_point: EntityId },
    AttackPresue { quarry_rb: EntityId },
}

/// A steering routine that a custom strategy spawns.
#[derive(Clone, Copy, PartialEq, Eq, Debug)]
pub enum RoutineSpawn {
    AvoidCollision,
    Closure,
    Player,
    Arrive,
    FlyWithFlock,
}

/// How a custom strategy composes the routines it spawns.
#[derive(Clone, Copy, PartialEq, Eq, Debug)]
pub enum CustomComposition {
    Single { routine: RoutineSpawn },
    PriorityOverride { first: RoutineSpawn, second: RoutineSpawn },
}

/// The routines a custom composition spawns, in spawning order.
pub open spec fn spawns(composition: CustomComposition) -> Seq<RoutineSpawn> {
    match composition {
        CustomComposition::Single { routine } => seq![routine],
        CustomComposition::PriorityOverride { first, second } => seq![first, second],
    }
}

/// The composing part of the custom strategy's butler: once the routines
/// of `composition` are spawned (`spawned[i]` for `spawns(composition)[i]`),
/// the composer that runs them as the composition says.
pub fn custom_composer(composition: CustomComposition, spawned: Vec<EntityId>) -> (r: SteeringRoutineComposer)
    requires
        spawned@.len() == spawns(composition).len(),
    ensures
        composed(r) == spawned@,
        composition is Single ==> r is Single,
        composition is PriorityOverride ==> r is PriorityOverride,
{
    match composition {
        CustomComposition::Single { .. } => {
            let r = SteeringRoutineComposer::Single { entt: spawned[0] };
            assert(composed(r) =~= spawned@);
            r
        },
        CustomComposition::PriorityOverride { .. } => SteeringRoutineComposer::PriorityOverride {
            routines: Ids4::from_vec(spawned),
        },
    }
}

/// The strategy a boid directive calls for.
#[derive(Clone, Copy, PartialEq, Eq, Debug)]
pub enum StrategyPlan {
    NoStrategy,
    Custom { composition: CustomComposition },
    Form { formation: EntityId },
    RunCircuit { initial_point: EntityId },
    AttackPersue { quarry_rb: EntityId },
}

/// The strategy that `directive` calls for.
pub open spec fn strategy_for(directive: BoidMindDirective) -> StrategyPlan {
    match directive {
        BoidMindDirective::Unset => StrategyPlan::NoStrategy,
        BoidMindDirective::KeepGoingForward => StrategyPlan::Custom {
            composition: CustomComposition::PriorityOverride {
                first: RoutineSpawn::AvoidCollision,
                second: RoutineSpawn::Closure,
            },
        },
        BoidMindDirective::SlaveToPlayerControl => StrategyPlan::Custom {
            composition: CustomComposition::Single { routine: RoutineSpawn::Player },
        },
        BoidMindDirective::HoldPosition => StrategyPlan::Custom {
            composition: CustomComposition::PriorityOverride {
                first: RoutineSpawn::AvoidCollision,
                second: RoutineSpawn::Arrive,
            },
        },
        BoidMindDirective::JoinFomation { formation } => StrategyPlan::Form { formation },
        BoidMindDirective::FlyWithFlockCAS { .. } => StrategyPlan::Custom {
            composition: CustomComposition::PriorityOverride {
                first: RoutineSpawn::AvoidCollision,
                second: RoutineSpawn::FlyWithFlock,
            },
        },
        BoidMindDirective::RunCircuit { initial_point } => StrategyPlan::RunCircuit { initial_point },
        BoidMindDirective::AttackPresue { quarry_rb } => StrategyPlan::AttackPersue { quarry_rb },
    }
}

/// The decision of the boid mind when a boid's directive changes: the
/// current strategy, if any, is to be despawned, and the strategy that the
/// new directive calls for is to be spawned in its place.
pub fn boid_mind(current_strategy: Option<EntityId>, directive: BoidMindDirective) -> (r: (
    Option<EntityId>,
    StrategyPlan,
))
    ensures
        r.0 == current_strategy,
        r.1 == strategy_for(directive),
{
    let plan = match directive {
        BoidMindDirective::Unset => StrategyPlan::NoStrategy,
        BoidMindDirective::KeepGoingForward => StrategyPlan::Custom {
            composition: CustomComposition::PriorityOverride {
                first: RoutineSpawn::AvoidCollision,
                second: RoutineSpawn::Closure,
            },
        },
        BoidMindDirective::SlaveToPlayerControl => StrategyPlan::Custom {
            composition: CustomComposition::Single { routine: RoutineSpawn::Player },
        },
        BoidMindDirective::HoldPosition => StrategyPlan::Custom {
            composition: CustomComposition::PriorityOverride {
                first: RoutineSpawn::AvoidCollision,
                second: RoutineSpawn::Arrive,
            },
        },
        BoidMindDirective::JoinFomation { formation } => StrategyPlan::Form { formation },
        BoidMindDirective::FlyWithFlockCAS { .. } => StrategyPlan::Custom {
            composition: CustomComposition::PriorityOverride {
                first: RoutineSpawn::AvoidCollision,
                second: RoutineSpawn::FlyWithFlock,
            },
        },
        BoidMindDirective::RunCircuit { initial_point } => StrategyPlan::RunCircuit { initial_point },
        BoidMindDirective::AttackPresue { quarry_rb } => StrategyPlan::AttackPersue { quarry_rb },
    };
    (current_strategy, plan)
}

/// What a flock's mind has been told to do.
#[derive(Clone, Copy, PartialEq, Eq, Debug)]
pub enum FlockMindDirective {
    /// No directive: the flock runs no strategy.
    Unset,
    CAS,
    FormUp { leader_directive: Option<BoidMindDirective> },
    JoinFomation { formation: EntityId },
}

/// The flock strategy a flock directive calls for.
#[derive(Clone, Copy, PartialEq, Eq, Debug)]
pub enum FlockStrategyPlan {
    NoStrategy,
    FormUp { leader_directive: Option<BoidMindDirective> },
    CAS,
}

/// The decision of the flock mind when a flock's directive changes: the
/// current strategy, if any, is to be despawned and the one the directive
/// calls for spawned. Joining a formation is not implemented for flocks,
/// so that directive is not accepted.
pub fn flock_mind(current_strategy: Option<EntityId>, directive: FlockMindDirective) -> (r: (
    Option<EntityId>,
    FlockStrategyPlan,
))
    requires
        !(directive is JoinFomation),
    ensures
        r.0 == current_strategy,
        r.1 == match directive {
            FlockMindDirective::Unset => FlockStrategyPlan::NoStrategy,
            FlockMindDirective::CAS => FlockStrategyPlan::CAS,
            FlockMindDirective::FormUp { leader_directive } => FlockStrategyPlan::FormUp {
                leader_directive,
            },
            FlockMindDirective::JoinFomation { .. } => FlockStrategyPlan::NoStrategy,
        },
{
    let plan = match directive {
        FlockMindDirective::Unset => FlockStrategyPlan::NoStrategy,
        FlockMindDirective::CAS => FlockStrategyPlan::CAS,
        FlockMindDirective::FormUp { leader_directive } => FlockStrategyPlan::FormUp { leader_directive },
        FlockMindDirective::JoinFomation { .. } => FlockStrategyPlan::NoStrategy,
    };
    (current_strategy, plan)
}

/// Each member paired with the directive `d`.
pub open spec fn all_directed(members: Seq<EntityId>, d: BoidMindDirective) -> Seq<(EntityId, BoidMindDirective)> {
    members.map_values(|m: EntityId| (m, d))
}

/// The members, in order, whose current directive fails `keep`, each paired with `d`.
pub open spec fn redirected(
    members: Seq<EntityId>,
    current: Seq<BoidMindDirective>,
    keep: spec_fn(BoidMindDirective) -> bool,
    d: BoidMindDirective,
) -> Seq<(EntityId, BoidMindDirective)>
    decreases members.len(),
{
    if members.len() == 0 {
        Seq::empty()
    } else {
        let rest = redirected(members.drop_last(), current.drop_last(), keep, d);
        if keep(current[members.len() - 1]) {
            rest
        } else {
            rest.push((members.last(), d))
        }
    }
}

/// Pairs every member with `d`.
fn direct_all(members: &Vec<EntityId>, d: BoidMindDirective) -> (r: Vec<(EntityId, BoidMindDirective)>)
    ensures
        r@ == all_directed(members@, d),
{
    let mut out: Vec<(EntityId, BoidMindDirective)> = Vec::new();
    let mut ii: usize = 0;
    while ii < members.len()
        invariant
            ii <= members@.len(),
            out@ == all_directed(members@.subrange(0, ii as int), d),
        decreases members@.len() - ii,
    {
        out.push((members[ii], d));
        assert(all_directed(members@.subrange(0, ii + 1), d) =~= all_directed(
            members@.subrange(0, ii as int),
            d,
        ).push((members@[ii as int], d)));
        ii = ii + 1;
    }
    assert(members@.subrange(0, members@.len() as int) =~= members@);
    out
}

/// A strategy starting up tells every member, in order, the strategy's
/// directive, and no one else.
pub proof fn lemma_all_directed_pairs_each_member(members: Seq<EntityId>, d: BoidMindDirective)
    ensures
        all_directed(members, d).len() == members.len(),
        forall|i: int| 0 <= i < members.len() ==> #[trigger] all_directed(members, d)[i] == (members[i], d),
{
}

/// Whether a directive already flies with a flock under CAS.
pub open spec fn flies_with_flock(d: BoidMindDirective) -> bool {
    d is FlyWithFlockCAS
}

/// The test of whether a directive already flies with a flock under CAS.
pub open spec fn flying_with_a_flock() -> spec_fn(BoidMindDirective) -> bool {
    |d: BoidMindDirective| flies_with_flock(d)
}

/// Whether a directive already joins the formation `formation`.
pub open spec fn joins(formation: EntityId) -> spec_fn(BoidMindDirective) -> bool {
    |d: BoidMindDirective| d == BoidMindDirective::JoinFomation { formation }
}

/// The CAS flock strategy starting up: every member is told to fly with
/// the flock under the strategy `strategy_entt`.
pub fn cas_on_start(members: &Vec<EntityId>, strategy_entt: EntityId) -> (r: Vec<(EntityId, BoidMindDirective)>)
    ensures
        r@ == all_directed(members@, BoidMindDirective::FlyWithFlockCAS { flock_strategy_entt: strategy_entt }),
{
    direct_all(members, BoidMindDirective::FlyWithFlockCAS { flock_strategy_entt: strategy_entt })
}

/// The CAS flock strategy after its flock's members changed: the members
/// not yet flying with a flock are told to fly with this one; the others
/// keep their directive. `current[i]` is the directive of `members[i]`.
pub fn cas_on_members_changed(
    members: &Vec<EntityId>,
    current: &Vec<BoidMindDirective>,
    strategy_entt: EntityId,
) -> (r: Vec<(EntityId, BoidMindDirective)>)
    requires
        current@.len() == members@.len(),
    ensures
        r@ == redirected(
            members@,
            current@,
            |d: BoidMindDirective| flies_with_flock(d),
            BoidMindDirective::FlyWithFlockCAS { flock_strategy_entt: strategy_entt },
        ),
        forall|j: int|
            0 <= j < members@.len() && !(#[trigger] current@[j] is FlyWithFlockCAS) ==> r@.contains(
                (members@[j], cas_directive(strategy_entt)),
            ),
        forall|i: int|
            #![trigger r@[i]]
            0 <= i < r@.len() ==> exists|j: int|
                #![trigger current@[j]]
                0 <= j < members@.len() && !(current@[j] is FlyWithFlockCAS) && r@[i] == (
                    members@[j],
                    cas_directive(strategy_entt),
                ),
{
    let d = BoidMindDirective::FlyWithFlockCAS { flock_strategy_entt: strategy_entt };
    let ghost keep = |x: BoidMindDirective| flies_with_flock(x);
    let mut out: Vec<(EntityId, BoidMindDirective)> = Vec::new();
    let mut ii: usize = 0;
    while ii < members.len()
        invariant
            ii <= members@.len(),
            current@.len() == members@.len(),
            keep == (|x: BoidMindDirective| flies_with_flock(x)),
            out@ == redirected(members@.subrange(0, ii as int), current@.subrange(0, ii as int), keep, d),
        decreases members@.len() - ii,
    {
        proof {
            let ms = members@.subrange(0, ii + 1);
            let cs = current@.subrange(0, ii + 1);
            assert(ms.drop_last() =~= members@.subrange(0, ii as int));
            assert(cs.drop_last() =~= current@.subrange(0, ii as int));
            assert(cs[ms.len() - 1] == current@[ii as int]);
        }
        match current[ii] {
            BoidMindDirective::FlyWithFlockCAS { .. } => {},
            _ => {
                out.push((members[ii], d));
            },
        }
        ii = ii + 1;
    }
    assert(members@.subrange(0, members@.len() as int) =~= members@);
    assert(current@.subrange(0, current@.len() as int) =~= current@);
    proof {
        assert(d == cas_directive(strategy_entt));
        assert(keep =~= flying_with_a_flock());
        lemma_cas_redirects_members_not_flying(members@, current@, strategy_entt);
    }
    out
}

/// The hold flock strategy starting up: every member is told to join the
/// formation `formation`.
pub fn hold_on_start(members: &Vec<EntityId>, formation: EntityId) -> (r: Vec<(EntityId, BoidMindDirective)>)
    ensures
        r@ == all_directed(members@, BoidMindDirective::JoinFomation { formation }),
{
    direct_all(members, BoidMindDirective::JoinFomation { formation })
}

/// The hold flock strategy after its flock's members changed: the members
/// not already joining `formation` are told to join it; the others keep
/// their directive. `current[i]` is the directive of `members[i]`.
pub fn hold_on_members_changed(
    members: &Vec<EntityId>,
    current: &Vec<BoidMindDirective>,
    formation: EntityId,
) -> (r: Vec<(EntityId, BoidMindDirective)>)
    requires
        current@.len() == members@.len(),
    ensures
        r@ == redirected(members@, current@, joins(formation), BoidMindDirective::JoinFomation { formation }),
        forall|j: int|
            0 <= j < members@.len() && #[trigger] current@[j] != join_directive(formation) ==> r@.contains(
                (members@[j], join_directive(formation)),
            ),
        forall|i: int|
            #![trigger r@[i]]
            0 <= i < r@.len() ==> exists|j: int|
                #![trigger current@[j]]
                0 <= j < members@.len() && current@[j] != join_directive(formation) && r@[i] == (
                    members@[j],
                    join_directive(formation),
                ),
{
    let d = BoidMindDirective::JoinFomation { formation };
    let mut out: Vec<(EntityId, BoidMindDirective)> = Vec::new();
    let mut ii: usize = 0;
    while ii < members.len()
        invariant
            ii <= members@.len(),
            current@.len() == members@.len(),
            out@ == redirected(
                members@.subrange(0, ii as int),
                current@.subrange(0, ii as int),
                joins(formation),
                d,
            ),
        decreases members@.len() - ii,
    {
        proof {
            let ms = members@.subrange(0, ii + 1);
            let cs = current@.subrange(0, ii + 1);
            assert(ms.drop_last() =~= members@.subrange(0, ii as int));
            assert(cs.drop_last() =~= current@.subrange(0, ii as int));
            assert(cs[ms.len() - 1] == current@[ii as int]);
        }
        let keep = match current[ii] {
            BoidMindDirective::JoinFomation { formation: f } => f == formation,
            _ => false,
        };
        if !keep {
            out.push((members[ii], d));
        }
        ii = ii + 1;
    }
    assert(members@.subrange(0, members@.len() as int) =~= members@);
    assert(current@.subrange(0, current@.len() as int) =~= current@);
    proof {
        lemma_hold_redirects_members_not_joining(members@, current@, formation);
    }
    out
}

/// The state of the form-up flock strategy: the boid currently leading.
pub struct FormUpState {
    pub leader: Option<EntityId>,
}

/// An order of the form-up flock strategy to a boid.
#[derive(Clone, Copy, PartialEq, Eq, Debug)]
pub enum FormUpOrder {
    /// Be told to join the flock's current formation.
    JoinFormation { boid: EntityId },
    /// Be given the strategy's leader directive.
    TakeLeaderDirective { boid: EntityId },
}

/// The orders telling each of `boids` to join the formation.
pub open spec fn join_orders(boids: Seq<EntityId>) -> Seq<FormUpOrder> {
    boids.map_values(|b: EntityId| FormUpOrder::JoinFormation { boid: b })
}

/// The form-up flock strategy starting up: every member but the
/// formation's center pivot is told to join the formation; when the
/// strategy has a leader directive, the center pivot becomes the leader
/// and takes it.
pub fn form_up_on_start(
    state: &mut FormUpState,
    members: &Vec<EntityId>,
    center: EntityId,
    has_leader_directive: bool,
) -> (r: Vec<FormUpOrder>)
    ensures
        r@ == join_orders(members@.filter(not_center(center))) + (if has_leader_directive {
            seq![FormUpOrder::TakeLeaderDirective { boid: center }]
        } else {
            Seq::empty()
        }),
        final(state).leader == (if has_leader_directive {
            Some(center)
        } else {
            old(state).leader
        }),
{
    let mut out: Vec<FormUpOrder> = Vec::new();
    let mut ii: usize = 0;
    while ii < members.len()
        invariant
            ii <= members@.len(),
            out@ == join_orders(members@.subrange(0, ii as int).filter(not_center(center))),
        decreases members@.len() - ii,
    {
        let m = members[ii];
        proof {
            assert(members@.subrange(0, ii + 1) =~= members@.subrange(0, ii as int).push(m));
            members@.subrange(0, ii as int).lemma_filter_push(m, not_center(center));
        }
        if m != center {
            out.push(FormUpOrder::JoinFormation { boid: m });
            assert(join_orders(members@.subrange(0, ii as int).filter(not_center(center)).push(m)) =~= join_orders(
                members@.subrange(0, ii as int).filter(not_center(center)),
            ).push(FormUpOrder::JoinFormation { boid: m }));
        }
        ii = ii + 1;
    }
    assert(members@.subrange(0, members@.len() as int) =~= members@);
    let ghost joins_part = out@;
    if has_leader_directive {
        state.leader = Some(center);
        out.push(FormUpOrder::TakeLeaderDirective { boid: center });
    }
    assert(out@ =~= joins_part + (if has_leader_directive {
        seq![FormUpOrder::TakeLeaderDirective { boid: center }]
    } else {
        Seq::empty()
    }));
    out
}

/// The form-up flock strategy serving one membership event of its flock.
/// A member joining as the center pivot becomes the leader; with a leader
/// directive, the previous leader is told to join the formation and the
/// center pivot takes the directive. Any other joining member is told to
/// join the formation. When the leader leaves and there is a leader
/// directive, the center pivot takes it.
///
/// A leader must be recorded in those two cases.
pub fn form_up_on_event(
    state: &mut FormUpState,
    event: FlockChangeEvent,
    center: EntityId,
    has_leader_directive: bool,
) -> (r: Vec<FormUpOrder>)
    requires
        event == (FlockChangeEvent::MemberAdded { entt: center }) && has_leader_directive
            ==> old(state).leader.is_some(),
        event is MemberRemoved ==> old(state).leader.is_some(),
    ensures
        match event {
            FlockChangeEvent::MemberAdded { entt } => if entt == center {
                &&& final(state).leader == Some(entt)
                &&& r@ == (if has_leader_directive {
                    seq![
                        FormUpOrder::JoinFormation { boid: old(state).leader.unwrap() },
                        FormUpOrder::TakeLeaderDirective { boid: center },
                    ]
                } else {
                    Seq::empty()
                })
            } else {
                &&& final(state).leader == old(state).leader
                &&& r@ == seq![FormUpOrder::JoinFormation { boid: entt }]
            },
            FlockChangeEvent::MemberRemoved { entt } => {
                &&& final(state).leader == old(state).leader
                &&& r@ == (if entt == old(state).leader.unwrap() && has_leader_directive {
                    seq![FormUpOrder::TakeLeaderDirective { boid: center }]
                } else {
                    Seq::empty()
                })
            },
        },
{
    let mut out: Vec<FormUpOrder> = Vec::new();
    match event {
        FlockChangeEvent::MemberAdded { entt } => {
            if entt == center {
                if has_leader_directive {
                    let old_leader = state.leader.take().unwrap();
                    out.push(FormUpOrder::JoinFormation { boid: old_leader });
                    out.push(FormUpOrder::TakeLeaderDirective { boid: center });
                }
                state.leader = Some(entt);
            } else {
                out.push(FormUpOrder::JoinFormation { boid: entt });
            }
        },
        FlockChangeEvent::MemberRemoved { entt } => {
            let leader = state.leader.unwrap();
            if entt == leader {
                if has_leader_directive {
                    out.push(FormUpOrder::TakeLeaderDirective { boid: center });
                }
            }
        },
    }
    out
}

/// The player mind: when the player's mind configuration changed and a
/// craft is being played, that craft is handed to player control.
/// Automatic steering is not implemented, so a changed configuration that
/// asks for it is not accepted while a craft is played.
pub fn player_mind(cur_craft: Option<EntityId>, config_changed: bool, auto_steer: bool) -> (r: Option<
    (EntityId, BoidMindDirective),
>)
    requires
        !(cur_craft.is_some() && config_changed && auto_steer),
    ensures
        r == (if cur_craft.is_some() && config_changed {
            Some((cur_craft.unwrap(), BoidMindDirective::SlaveToPlayerControl))
        } else {
            None
        }),
{
    match cur_craft {
        Some(entt) => {
            if config_changed {
                Some((entt, BoidMindDirective::SlaveToPlayerControl))
            } else {
                None
            }
        },
        None => None,
    }
}

/// A flock strategy re-directs every member whose current directive it
/// would not keep, to the strategy's directive.
pub proof fn lemma_redirected_covers_unkept(
    members: Seq<EntityId>,
    current: Seq<BoidMindDirective>,
    keep: spec_fn(BoidMindDirective) -> bool,
    d: BoidMindDirective,
)
    requires
        current.len() == members.len(),
    ensures
        forall|j: int|
            0 <= j < members.len() && !keep(#[trigger] current[j]) ==> redirected(members, current, keep, d).contains(
                (members[j], d),
            ),
    decreases members.len(),
{
    if members.len() > 0 {
        let ms = members.drop_last();
        let cs = current.drop_last();
        lemma_redirected_covers_unkept(ms, cs, keep, d);
        let r = redirected(members, current, keep, d);
        let rest = redirected(ms, cs, keep, d);
        assert forall|j: int| 0 <= j < members.len() && !keep(#[trigger] current[j]) implies r.contains(
            (members[j], d),
        ) by {
            if j < members.len() - 1 {
                assert(cs[j] == current[j] && ms[j] == members[j]);
                assert(rest.contains((ms[j], d)));
                let i = choose|i: int| 0 <= i < rest.len() && rest[i] == (ms[j], d);
                if !keep(current[members.len() - 1]) {
                    assert(r == rest.push((members.last(), d)));
                    assert(r[i] == rest[i]);
                }
            } else {
                assert(r == rest.push((members.last(), d)));
                assert(r[rest.len() as int] == (members[j], d));
            }
        }
    }
}

/// The directive to fly with the flock of the CAS strategy `strategy_entt`.
pub open spec fn cas_directive(strategy_entt: EntityId) -> BoidMindDirective {
    BoidMindDirective::FlyWithFlockCAS { flock_strategy_entt: strategy_entt }
}

/// After its flock's members changed, the CAS strategy tells every member
/// whose directive is not already to fly with a flock under CAS to fly
/// with this strategy's flock, and tells nothing to any other member.
pub proof fn lemma_cas_redirects_members_not_flying(
    members: Seq<EntityId>,
    current: Seq<BoidMindDirective>,
    strategy_entt: EntityId,
)
    requires
        current.len() == members.len(),
    ensures
        forall|j: int|
            0 <= j < members.len() && !(#[trigger] current[j] is FlyWithFlockCAS) ==> redirected(
                members,
                current,
                flying_with_a_flock(),
                cas_directive(strategy_entt),
            ).contains((members[j], cas_directive(strategy_entt))),
        forall|i: int|
            #![trigger redirected(members, current, flying_with_a_flock(), cas_directive(strategy_entt))[i]]
            0 <= i < redirected(members, current, flying_with_a_flock(), cas_directive(strategy_entt)).len()
                ==> exists|j: int|
                #![trigger current[j]]
                0 <= j < members.len() && !(current[j] is FlyWithFlockCAS) && redirected(
                    members,
                    current,
                    flying_with_a_flock(),
                    cas_directive(strategy_entt),
                )[i] == (members[j], cas_directive(strategy_entt)),
{
    let keep = flying_with_a_flock();
    let d = cas_directive(strategy_entt);
    lemma_redirected_covers_unkept(members, current, keep, d);
    lemma_redirected_only_unkept(members, current, keep, d);
    let r = redirected(members, current, keep, d);
    assert forall|i: int| #![trigger r[i]] 0 <= i < r.len() implies exists|j: int|
        #![trigger current[j]]
        0 <= j < members.len() && !(current[j] is FlyWithFlockCAS) && r[i] == (members[j], d) by {
        let j = choose|j: int| 0 <= j < members.len() && r[i] == (members[j], d) && !keep(#[trigger] current[j]);
        assert(!flies_with_flock(current[j]));
    }
    assert forall|j: int| 0 <= j < members.len() && !(#[trigger] current[j] is FlyWithFlockCAS) implies r.contains(
        (members[j], d),
    ) by {
        assert(!keep(current[j]));
    }
}

/// The directive to join the formation `formation`.
pub open spec fn join_directive(formation: EntityId) -> BoidMindDirective {
    BoidMindDirective::JoinFomation { formation }
}

/// After its flock's members changed, the hold strategy tells every member
/// whose directive is not already to join `formation` to join it, and
/// tells nothing to any other member.
pub proof fn lemma_hold_redirects_members_not_joining(
    members: Seq<EntityId>,
    current: Seq<BoidMindDirective>,
    formation: EntityId,
)
    requires
        current.len() == members.len(),
    ensures
        forall|j: int|
            0 <= j < members.len() && #[trigger] current[j] != join_directive(formation) ==> redirected(
                members,
                current,
                joins(formation),
                join_directive(formation),
            ).contains((members[j], join_directive(formation))),
        forall|i: int|
            #![trigger redirected(members, current, joins(formation), join_directive(formation))[i]]
            0 <= i < redirected(members, current, joins(formation), join_directive(formation)).len()
                ==> exists|j: int|
                #![trigger current[j]]
                0 <= j < members.len() && current[j] != join_directive(formation) && redirected(
                    members,
                    current,
                    joins(formation),
                    join_directive(formation),
                )[i] == (members[j], join_directive(formation)),
{
    let keep = joins(formation);
    let d = join_directive(formation);
    lemma_redirected_covers_unkept(members, current, keep, d);
    lemma_redirected_only_unkept(members, current, keep, d);
    let r = redirected(members, current, keep, d);
    assert forall|i: int| #![trigger r[i]] 0 <= i < r.len() implies exists|j: int|
        #![trigger current[j]]
        0 <= j < members.len() && current[j] != d && r[i] == (members[j], d) by {
        let j = choose|j: int| 0 <= j < members.len() && r[i] == (members[j], d) && !keep(#[trigger] current[j]);
        assert(current[j] != d);
    }
    assert forall|j: int| 0 <= j < members.len() && #[trigger] current[j] != d implies r.contains((members[j], d)) by {
        assert(!keep(current[j]));
    }
}

/// A flock strategy only re-directs members whose current directive it
/// would not keep, and gives each the strategy's directive.
pub proof fn lemma_redirected_only_unkept(
    members: Seq<EntityId>,
    current: Seq<BoidMindDirective>,
    keep: spec_fn(BoidMindDirective) -> bool,
    d: BoidMindDirective,
)
    requires
        current.len() == members.len(),
    ensures
        forall|i: int|
            #![trigger redirected(members, current, keep, d)[i]]
            0 <= i < redirected(members, current, keep, d).len() ==> exists|j: int|
                0 <= j < members.len() && redirected(members, current, keep, d)[i] == (members[j], d)
                    && !keep(#[trigger] current[j]),
    decreases members.len(),
{
    if members.len() > 0 {
        let ms = members.drop_last();
        let cs = current.drop_last();
        lemma_redirected_only_unkept(ms, cs, keep, d);
        let r = redirected(members, current, keep, d);
        let rest = redirected(ms, cs, keep, d);
        assert forall|i: int| #![trigger r[i]] 0 <= i < r.len() implies exists|j: int|
            0 <= j < members.len() && r[i] == (members[j], d) && !keep(#[trigger] current[j]) by {
            if i < rest.len() {
                assert(r[i] == rest[i]);
                let j = choose|j: int| 0 <= j < ms.len() && rest[i] == (ms[j], d) && !keep(#[trigger] cs[j]);
                assert(members[j] == ms[j] && current[j] == cs[j]);
            } else {
                let j = members.len() - 1;
                assert(!keep(current[j]));
                assert(r[i] == (members[j], d));
            }
        }
    }
}

} // verus!
