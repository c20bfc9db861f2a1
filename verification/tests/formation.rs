use isis::compose::SteeringRoutineComposer;
use isis::flock::{take_change_events, FlockChangeEvent, FlockMembers};
use isis::sensors::SteeringRoutinesIndex;
use isis::formation::{
    apply_flock_change, form_composer, form_join, formant_order, seat_members, serve_flock_events, FormationSlotDesc, FormationSlotKind,
    FormationSlots, FormationState,
};

fn sorted(mut v: Vec<u64>) -> Vec<u64> {
    v.sort();
    v
}

#[test]
fn slots_insert_get_remove() {
    let mut slots = FormationSlots::new();
    assert_eq!(slots.insert(1, FormationSlotKind::Boid), None);
    assert_eq!(
        slots.insert(1, FormationSlotKind::Anchor),
        Some(FormationSlotDesc { kind: FormationSlotKind::Boid })
    );
    assert_eq!(slots.get(1), Some(FormationSlotDesc { kind: FormationSlotKind::Anchor }));
    assert_eq!(slots.get(2), None);
    assert!(slots.has_pending_changes());
    assert_eq!(slots.added(), vec![1, 1]);
    assert!(!slots.has_pending_changes());
    assert_eq!(slots.remove(1), Some(FormationSlotDesc { kind: FormationSlotKind::Anchor }));
    assert_eq!(slots.remove(1), None);
    assert_eq!(
        slots.removed(),
        vec![(1, FormationSlotDesc { kind: FormationSlotKind::Anchor })]
    );
    assert_eq!(slots.len(), 0);
}

#[test]
fn seating_skips_center_pivot() {
    let mut slots = FormationSlots::new();
    let seated = seat_members(&mut slots, &vec![3, 9, 4], 9);
    assert_eq!(seated, vec![3, 4]);
    assert_eq!(slots.len(), 2);
    assert_eq!(slots.get(9), None);
    assert_eq!(slots.get(3), Some(FormationSlotDesc { kind: FormationSlotKind::Boid }));
    assert!(!slots.has_pending_changes());
}

#[test]
fn flock_changes_update_slots_and_followers() {
    let mut slots = FormationSlots::new();
    let mut state = FormationState::new();
    let routines = SteeringRoutinesIndex::new();
    form_join(&routines, 77, &mut state, 5, 55);
    assert_eq!(state.boid_strategies.get(5), Some(55));
    apply_flock_change(&mut slots, &mut state, FlockChangeEvent::MemberAdded { entt: 5 });
    assert_eq!(slots.get(5), Some(FormationSlotDesc { kind: FormationSlotKind::Boid }));
    apply_flock_change(&mut slots, &mut state, FlockChangeEvent::MemberRemoved { entt: 5 });
    assert_eq!(slots.get(5), None);
    assert_eq!(state.boid_strategies.get(5), None);
    assert!(!slots.has_pending_changes());
}

#[test]
fn formant_order_excludes_center() {
    let mut slots = FormationSlots::new();
    seat_members(&mut slots, &vec![1, 2, 3], 0);
    slots.insert(0, FormationSlotKind::Boid);
    let order = formant_order(&slots, 0);
    assert_eq!(order.len(), 3);
    assert_eq!(sorted(order), vec![1, 2, 3]);
}

#[test]
fn form_join_reuses_indexed_avoid_collision() {
    let mut routines = SteeringRoutinesIndex::new();
    let mut state = FormationState::new();
    assert_eq!(form_join(&routines, 77, &mut state, 1, 40), None);
    assert_eq!(state.boid_strategies.get(1), Some(40));
    routines.insert(9, 77);
    routines.insert(8, 77);
    routines.insert(5, 3);
    assert_eq!(form_join(&routines, 77, &mut state, 2, 41), Some(9));
    assert_eq!(state.boid_strategies.get(2), Some(41));
    assert_eq!(state.boid_strategies.len(), 2);
}

#[test]
fn form_composer_avoids_then_arrives_and_faces() {
    let c = form_composer(3, 4, 5);
    assert!(matches!(c, SteeringRoutineComposer::AvoidCollisionHelper { avoid_collision: 3, .. }));
    assert_eq!(c.all_routines().to_vec(), vec![3, 4, 5]);
}

#[test]
fn served_events_bring_slots_to_members() {
    let mut members = FlockMembers::new();
    members.push(1);
    members.push(2);
    members.push(3);
    let mut slots = FormationSlots::new();
    let mut state = FormationState::new();
    // the new formation seats the members; the center pivot 9 is none of them
    seat_members(&mut slots, &members.to_vec(), 9);
    take_change_events(&mut members);
    let routines = SteeringRoutinesIndex::new();
    form_join(&routines, 77, &mut state, 2, 20);

    members.remove(2);
    members.push(4);
    members.push(5);
    members.remove(1);
    let events = take_change_events(&mut members);
    serve_flock_events(&mut slots, &mut state, &events);

    let mut held = formant_order(&slots, 9);
    held.sort();
    assert_eq!(held, sorted(members.to_vec()));
    assert_eq!(held, vec![3, 4, 5]);
    assert_eq!(state.boid_strategies.get(2), None);
    assert!(!slots.has_pending_changes());
}

#[test]
fn slot_of_member_added_and_removed_in_one_frame_stays() {
    // removals are served before additions, so a member that joins and
    // leaves between two drains keeps a slot
    let mut members = FlockMembers::new();
    let mut slots = FormationSlots::new();
    let mut state = FormationState::new();
    members.push(6);
    members.remove(6);
    let events = take_change_events(&mut members);
    assert_eq!(
        events,
        vec![FlockChangeEvent::MemberRemoved { entt: 6 }, FlockChangeEvent::MemberAdded { entt: 6 }]
    );
    serve_flock_events(&mut slots, &mut state, &events);
    assert_eq!(members.len(), 0);
    assert_eq!(slots.get(6), Some(FormationSlotDesc { kind: FormationSlotKind::Boid }));
}
