//! Collision groups of the craft colliders: the group bits, and the
//! membership and filter masks of each kind of collider.

use vstd::prelude::*;

verus! {

/// Solid obstacles.
pub const SOLID: u32 = 1 << 1;
/// The solid colliders of crafts.
pub const CRAFT_SOLID: u32 = 1 << 2;
/// The sensor colliders of craft attires.
pub const ATTIRE: u32 = 1 << 3;
/// Projectiles.
pub const PROJECTILE: u32 = 1 << 4;
/// Sensors.
pub const SENSOR: u32 = 1 << 5;

/// The groups a collider belongs to and the groups it may interact with,
/// as `CollisionGroups::new(memberships, filters)` of bevy_rapier3d holds them.
#[derive(Clone, Copy, PartialEq, Eq, Debug)]
pub struct CollisionGroups {
    pub memberships: u32,
    pub filters: u32,
}

/// Craft solid colliders: interact with solids, projectiles, sensors and
/// other craft solids.
pub fn craft_collider_igroup() -> (r: CollisionGroups)
    ensures
        r.memberships == CRAFT_SOLID,
        r.filters == SOLID | PROJECTILE | SENSOR | CRAFT_SOLID,
        r.memberships == 4,
        r.filters == 54,
{
    let r = CollisionGroups { memberships: CRAFT_SOLID, filters: SOLID | PROJECTILE | SENSOR | CRAFT_SOLID };
    assert((1u32 << 1u32) | (1u32 << 4u32) | (1u32 << 5u32) | (1u32 << 2u32) == 54u32) by (bit_vector);
    assert(1u32 << 2u32 == 4u32) by (bit_vector);
    r
}

/// Attire sensors: interact with projectiles only.
pub fn attire_collider_igroup() -> (r: CollisionGroups)
    ensures
        r.memberships == ATTIRE,
        r.filters == PROJECTILE,
        r.memberships == 8,
        r.filters == 16,
{
    let r = CollisionGroups { memberships: ATTIRE, filters: PROJECTILE };
    assert(1u32 << 3u32 == 8u32) by (bit_vector);
    assert(1u32 << 4u32 == 16u32) by (bit_vector);
    r
}

/// Obstacles: interact with solids, projectiles and craft solids.
pub fn obstacle_collider_igroup() -> (r: CollisionGroups)
    ensures
        r.memberships == SOLID,
        r.filters == SOLID | PROJECTILE | CRAFT_SOLID,
        r.memberships == 2,
        r.filters == 22,
{
    let r = CollisionGroups { memberships: SOLID, filters: SOLID | PROJECTILE | CRAFT_SOLID };
    assert(1u32 << 1u32 == 2u32) by (bit_vector);
    assert((1u32 << 1u32) | (1u32 << 4u32) | (1u32 << 2u32) == 22u32) by (bit_vector);
    r
}

/// Projectiles: interact with attires and solids.
pub fn projectile_collider_igroup() -> (r: CollisionGroups)
    ensures
        r.memberships == PROJECTILE,
        r.filters == ATTIRE | SOLID,
        r.memberships == 16,
        r.filters == 10,
{
    let r = CollisionGroups { memberships: PROJECTILE, filters: ATTIRE | SOLID };
    assert(1u32 << 4u32 == 16u32) by (bit_vector);
    assert((1u32 << 3u32) | (1u32 << 1u32) == 10u32) by (bit_vector);
    r
}

/// Sensors: interact with projectiles, solids and craft solids.
pub fn sensor_collider_igroup() -> (r: CollisionGroups)
    ensures
        r.memberships == SENSOR,
        r.filters == PROJECTILE | SOLID | CRAFT_SOLID,
        r.memberships == 32,
        r.filters == 22,
{
    let r = CollisionGroups { memberships: SENSOR, filters: PROJECTILE | SOLID | CRAFT_SOLID };
    assert(1u32 << 5u32 == 32u32) by (bit_vector);
    assert((1u32 << 4u32) | (1u32 << 1u32) | (1u32 << 2u32) == 22u32) by (bit_vector);
    r
}

} // verus!
