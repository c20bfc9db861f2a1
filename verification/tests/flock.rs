use isis::flock::{take_change_events, FlockChangeEvent, FlockMembers};

#[test]
fn flock_members_push_logs_added() {
    let mut members = FlockMembers::new();
    members.push(1);
    members.push(2);
    assert_eq!(members.to_vec(), vec![1, 2]);
    assert_eq!(members.len(), 2);
    assert_eq!(members.get(1), 2);
    assert_eq!(members.added(), vec![1, 2]);
    assert_eq!(members.added(), Vec::<u64>::new());
    assert_eq!(members.to_vec(), vec![1, 2]);
}

#[test]
fn flock_members_remove_swaps_and_logs() {
    let mut members = FlockMembers::new();
    for e in [1, 2, 3, 4] {
        members.push(e);
    }
    assert!(members.remove(2));
    assert_eq!(members.to_vec(), vec![1, 4, 3]);
    assert!(!members.remove(2));
    assert_eq!(members.removed(), vec![2]);
    assert_eq!(members.removed(), Vec::<u64>::new());
}

#[test]
fn flock_members_spill_past_inline_capacity() {
    let mut members = FlockMembers::new();
    for e in 0..20u64 {
        members.push(e);
    }
    assert_eq!(members.len(), 20);
    assert!(members.remove(0));
    assert_eq!(members.get(0), 19);
    assert_eq!(members.added().len(), 20);
}

#[test]
fn change_events_report_removals_first() {
    let mut members = FlockMembers::new();
    members.push(7);
    members.push(8);
    members.remove(7);
    let events = take_change_events(&mut members);
    assert_eq!(
        events,
        vec![
            FlockChangeEvent::MemberRemoved { entt: 7 },
            FlockChangeEvent::MemberAdded { entt: 7 },
            FlockChangeEvent::MemberAdded { entt: 8 },
        ]
    );
    assert!(take_change_events(&mut members).is_empty());
    assert_eq!(members.to_vec(), vec![8]);
}

#[test]
fn remove_after_push_restores_members() {
    let mut members = FlockMembers::new();
    members.push(1);
    members.push(2);
    members.push(3);
    assert!(members.remove(3));
    assert_eq!(members.to_vec(), vec![1, 2]);
}
