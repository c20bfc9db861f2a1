use isis::collision::{
    attire_collider_igroup, craft_collider_igroup, obstacle_collider_igroup,
    projectile_collider_igroup, sensor_collider_igroup, ATTIRE, CRAFT_SOLID, PROJECTILE, SENSOR, SOLID,
};

fn interact(a: isis::collision::CollisionGroups, b: isis::collision::CollisionGroups) -> bool {
    (a.memberships & b.filters) != 0 && (b.memberships & a.filters) != 0
}

#[test]
fn collider_group_bits() {
    assert_eq!((SOLID, CRAFT_SOLID, ATTIRE, PROJECTILE, SENSOR), (2, 4, 8, 16, 32));
}

#[test]
fn collider_interaction_groups() {
    assert_eq!(craft_collider_igroup().memberships, CRAFT_SOLID);
    assert_eq!(craft_collider_igroup().filters, SOLID | PROJECTILE | SENSOR | CRAFT_SOLID);
    assert_eq!(attire_collider_igroup().filters, PROJECTILE);
    assert_eq!(obstacle_collider_igroup().filters, SOLID | PROJECTILE | CRAFT_SOLID);
    assert_eq!(projectile_collider_igroup().filters, ATTIRE | SOLID);
    assert_eq!(sensor_collider_igroup().filters, PROJECTILE | SOLID | CRAFT_SOLID);
}

#[test]
fn projectiles_hit_attires_and_obstacles_only() {
    let p = projectile_collider_igroup();
    assert!(interact(p, attire_collider_igroup()));
    assert!(interact(p, obstacle_collider_igroup()));
    assert!(!interact(p, craft_collider_igroup()));
    assert!(!interact(p, p));
    assert!(interact(craft_collider_igroup(), obstacle_collider_igroup()));
    assert!(interact(craft_collider_igroup(), craft_collider_igroup()));
}
