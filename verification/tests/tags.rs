use isis::tags::{BoidStrategy, CraftWeapon, FlockFormation, FormationCenterPivot, SteeringRoutine};

#[test]
fn tags_hand_back_their_parts() {
    let r = SteeringRoutine::new(1, 2);
    assert_eq!((r.boid_entt(), r.kind()), (1, 2));
    let s = BoidStrategy::new(3, 4);
    assert_eq!((s.craft_entt(), s.kind()), (3, 4));
    let w = CraftWeapon::new(5, 6, 7);
    assert_eq!((w.boid_entt(), w.kind(), w.class()), (5, 6, 7));
    assert_eq!(FlockFormation::new(8).flock_entt(), 8);
    assert_eq!(FormationCenterPivot::new(9).boid_entt(), 9);
}
