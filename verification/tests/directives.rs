use isis::directives::{
    boid_mind, cas_on_members_changed, custom_composer, cas_on_start, flock_mind, form_up_on_event,
    form_up_on_start, hold_on_members_changed, hold_on_start, player_mind, BoidMindDirective,
    CustomComposition, FlockMindDirective, FlockStrategyPlan, FormUpOrder, FormUpState,
    RoutineSpawn, StrategyPlan,
};
use isis::compose::SteeringRoutineComposer;
use isis::flock::FlockChangeEvent;

#[test]
fn boid_mind_plans_per_directive() {
    assert_eq!(boid_mind(Some(4), BoidMindDirective::Unset), (Some(4), StrategyPlan::NoStrategy));
    assert_eq!(
        boid_mind(None, BoidMindDirective::KeepGoingForward).1,
        StrategyPlan::Custom {
            composition: CustomComposition::PriorityOverride {
                first: RoutineSpawn::AvoidCollision,
                second: RoutineSpawn::Closure
            }
        }
    );
    assert_eq!(
        boid_mind(None, BoidMindDirective::SlaveToPlayerControl).1,
        StrategyPlan::Custom { composition: CustomComposition::Single { routine: RoutineSpawn::Player } }
    );
    assert_eq!(
        boid_mind(None, BoidMindDirective::HoldPosition).1,
        StrategyPlan::Custom {
            composition: CustomComposition::PriorityOverride {
                first: RoutineSpawn::AvoidCollision,
                second: RoutineSpawn::Arrive
            }
        }
    );
    assert_eq!(
        boid_mind(None, BoidMindDirective::JoinFomation { formation: 8 }).1,
        StrategyPlan::Form { formation: 8 }
    );
    assert_eq!(
        boid_mind(None, BoidMindDirective::FlyWithFlockCAS { flock_strategy_entt: 2 }).1,
        StrategyPlan::Custom {
            composition: CustomComposition::PriorityOverride {
                first: RoutineSpawn::AvoidCollision,
                second: RoutineSpawn::FlyWithFlock
            }
        }
    );
    assert_eq!(
        boid_mind(None, BoidMindDirective::RunCircuit { initial_point: 3 }).1,
        StrategyPlan::RunCircuit { initial_point: 3 }
    );
    assert_eq!(
        boid_mind(None, BoidMindDirective::AttackPresue { quarry_rb: 6 }).1,
        StrategyPlan::AttackPersue { quarry_rb: 6 }
    );
}

#[test]
fn flock_mind_plans_per_directive() {
    assert_eq!(flock_mind(None, FlockMindDirective::Unset), (None, FlockStrategyPlan::NoStrategy));
    assert_eq!(flock_mind(Some(1), FlockMindDirective::CAS), (Some(1), FlockStrategyPlan::CAS));
    assert_eq!(
        flock_mind(None, FlockMindDirective::FormUp { leader_directive: Some(BoidMindDirective::HoldPosition) }).1,
        FlockStrategyPlan::FormUp { leader_directive: Some(BoidMindDirective::HoldPosition) }
    );
}

#[test]
fn cas_directs_members() {
    let d = BoidMindDirective::FlyWithFlockCAS { flock_strategy_entt: 9 };
    assert_eq!(cas_on_start(&vec![1, 2], 9), vec![(1, d), (2, d)]);
    let current = vec![
        BoidMindDirective::FlyWithFlockCAS { flock_strategy_entt: 4 },
        BoidMindDirective::Unset,
        BoidMindDirective::HoldPosition,
    ];
    assert_eq!(cas_on_members_changed(&vec![1, 2, 3], &current, 9), vec![(2, d), (3, d)]);
}

#[test]
fn hold_directs_members() {
    let d = BoidMindDirective::JoinFomation { formation: 5 };
    assert_eq!(hold_on_start(&vec![1], 5), vec![(1, d)]);
    let current = vec![
        BoidMindDirective::JoinFomation { formation: 5 },
        BoidMindDirective::JoinFomation { formation: 6 },
        BoidMindDirective::KeepGoingForward,
    ];
    assert_eq!(hold_on_members_changed(&vec![1, 2, 3], &current, 5), vec![(2, d), (3, d)]);
}

#[test]
fn form_up_start_and_events() {
    let mut state = FormUpState { leader: None };
    let orders = form_up_on_start(&mut state, &vec![1, 2, 3], 2, true);
    assert_eq!(
        orders,
        vec![
            FormUpOrder::JoinFormation { boid: 1 },
            FormUpOrder::JoinFormation { boid: 3 },
            FormUpOrder::TakeLeaderDirective { boid: 2 },
        ]
    );
    assert_eq!(state.leader, Some(2));
    assert_eq!(
        form_up_on_event(&mut state, FlockChangeEvent::MemberAdded { entt: 4 }, 2, true),
        vec![FormUpOrder::JoinFormation { boid: 4 }]
    );
    assert_eq!(
        form_up_on_event(&mut state, FlockChangeEvent::MemberRemoved { entt: 2 }, 7, true),
        vec![FormUpOrder::TakeLeaderDirective { boid: 7 }]
    );
    assert_eq!(
        form_up_on_event(&mut state, FlockChangeEvent::MemberAdded { entt: 7 }, 7, true),
        vec![FormUpOrder::JoinFormation { boid: 2 }, FormUpOrder::TakeLeaderDirective { boid: 7 }]
    );
    assert_eq!(state.leader, Some(7));
    assert!(form_up_on_event(&mut state, FlockChangeEvent::MemberRemoved { entt: 1 }, 7, true).is_empty());
}

#[test]
fn form_up_without_leader_directive() {
    let mut state = FormUpState { leader: None };
    let orders = form_up_on_start(&mut state, &vec![1, 2], 1, false);
    assert_eq!(orders, vec![FormUpOrder::JoinFormation { boid: 2 }]);
    assert_eq!(state.leader, None);
    assert!(form_up_on_event(&mut state, FlockChangeEvent::MemberAdded { entt: 1 }, 1, false).is_empty());
    assert_eq!(state.leader, Some(1));
}

#[test]
fn player_mind_takes_over_current_craft() {
    assert_eq!(player_mind(Some(3), true, false), Some((3, BoidMindDirective::SlaveToPlayerControl)));
    assert_eq!(player_mind(Some(3), false, false), None);
    assert_eq!(player_mind(None, true, true), None);
}

#[test]
fn custom_composer_runs_spawned_routines() {
    let single = custom_composer(CustomComposition::Single { routine: RoutineSpawn::Player }, vec![12]);
    assert!(matches!(single, SteeringRoutineComposer::Single { entt: 12 }));
    assert_eq!(single.all_routines().to_vec(), vec![12]);
    let prio = custom_composer(
        CustomComposition::PriorityOverride {
            first: RoutineSpawn::AvoidCollision,
            second: RoutineSpawn::Arrive,
        },
        vec![5, 6],
    );
    assert!(matches!(prio, SteeringRoutineComposer::PriorityOverride { .. }));
    assert_eq!(prio.all_routines().to_vec(), vec![5, 6]);
}
