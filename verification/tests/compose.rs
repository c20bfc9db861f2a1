use isis::compose::{
    attack_persue_choice, composition_plan, reusable_routine, routine_activation, set_chasing_routine,
    AttackPersueState, CompositionPlan, RelativeDirection, SteeringRoutineComposer,
};
use isis::compose::RoutineLookup::{Missing, NoOutputs, NonZero, Zero};
use isis::sensors::SteeringRoutinesIndex;

fn sorted(mut v: Vec<u64>) -> Vec<u64> {
    v.sort();
    v
}

#[test]
fn all_routines_per_composer() {
    assert!(SteeringRoutineComposer::Empty.all_routines().to_vec().is_empty());
    assert_eq!(SteeringRoutineComposer::Single { entt: 4 }.all_routines().to_vec(), vec![4]);
    assert_eq!(
        SteeringRoutineComposer::weight_summed(vec![1, 2]).all_routines().to_vec(),
        vec![1, 2]
    );
    assert_eq!(
        SteeringRoutineComposer::priority_override(vec![3, 1, 2])
            .all_routines()
            .to_vec(),
        vec![3, 1, 2]
    );
    assert_eq!(
        SteeringRoutineComposer::avoid_collision_helper(9, vec![1, 2])
            .all_routines()
            .to_vec(),
        vec![9, 1, 2]
    );
}

#[test]
fn priority_override_takes_first_non_zero() {
    let c = SteeringRoutineComposer::priority_override(vec![10, 11, 12]);
    assert_eq!(composition_plan(&c, &vec![Zero, NonZero, NonZero]), CompositionPlan::Take { entt: 11 });
    assert_eq!(composition_plan(&c, &vec![Zero, Zero, Zero]), CompositionPlan::Default);
    assert_eq!(composition_plan(&c, &vec![Zero, Missing, NonZero]), CompositionPlan::Default);
    assert_eq!(composition_plan(&c, &vec![NonZero, Missing, NonZero]), CompositionPlan::Take { entt: 10 });
}

#[test]
fn weighted_and_single_plans() {
    let w = SteeringRoutineComposer::weight_summed(vec![1, 2]);
    assert_eq!(composition_plan(&w, &vec![Zero, NonZero]), CompositionPlan::SumWeighted);
    assert_eq!(composition_plan(&w, &vec![NoOutputs, NonZero]), CompositionPlan::Default);
    let s = SteeringRoutineComposer::Single { entt: 7 };
    assert_eq!(composition_plan(&s, &vec![Zero]), CompositionPlan::Take { entt: 7 });
    assert_eq!(composition_plan(&s, &vec![Missing]), CompositionPlan::Default);
    assert_eq!(composition_plan(&SteeringRoutineComposer::Empty, &vec![]), CompositionPlan::Default);
}

#[test]
fn avoid_collision_helper_plans() {
    let c = SteeringRoutineComposer::avoid_collision_helper(9, vec![1, 2]);
    assert_eq!(composition_plan(&c, &vec![NonZero, Missing, Missing]), CompositionPlan::Take { entt: 9 });
    assert_eq!(composition_plan(&c, &vec![Zero, Zero, NonZero]), CompositionPlan::SumWeighted);
    assert_eq!(composition_plan(&c, &vec![Missing, Zero, NonZero]), CompositionPlan::SumWeighted);
    assert_eq!(composition_plan(&c, &vec![Zero, Zero, Missing]), CompositionPlan::Default);
}

#[test]
fn activation_follows_composition() {
    let mut index = SteeringRoutinesIndex::new();
    index.insert(1, 100);
    index.insert(2, 100);
    index.insert(3, 200);
    let c = SteeringRoutineComposer::priority_override(vec![2, 4, 5]);
    let (deactivate, activate) = routine_activation(&index, &c);
    assert_eq!(sorted(deactivate), vec![1, 3]);
    assert_eq!(sorted(activate), vec![4, 5]);
}

#[test]
fn attack_persue_switches_routines() {
    let state = AttackPersueState {
        composer_routine: Some(1),
        intercept_routine: Some(2),
        intercept_wpn_speed: Some(3),
        avoid_collision: Some(4),
    };
    assert_eq!(attack_persue_choice(&state, false, RelativeDirection::Ahead, true), (false, 2));
    assert_eq!(attack_persue_choice(&state, true, RelativeDirection::Ahead, true), (true, 3));
    assert_eq!(attack_persue_choice(&state, true, RelativeDirection::Ahead, false), (false, 3));
    assert_eq!(attack_persue_choice(&state, true, RelativeDirection::Behind, true), (false, 2));
    assert_eq!(attack_persue_choice(&state, true, RelativeDirection::Aside, true), (false, 2));
    let mut c = SteeringRoutineComposer::priority_override(vec![4, 2]);
    set_chasing_routine(&mut c, 3);
    assert_eq!(c.all_routines().to_vec(), vec![4, 3]);
}

#[test]
fn reusable_routine_takes_first_of_kind() {
    let mut index = SteeringRoutinesIndex::new();
    assert_eq!(reusable_routine(&index, 100), None);
    index.insert(7, 100);
    index.insert(8, 100);
    index.insert(9, 200);
    assert_eq!(reusable_routine(&index, 100), Some(7));
    assert_eq!(reusable_routine(&index, 200), Some(9));
    index.remove(7);
    assert_eq!(reusable_routine(&index, 100), Some(8));
    index.remove(8);
    assert_eq!(reusable_routine(&index, 100), None);
}
