//! The tag components that tie routines, strategies, weapons and
//! formations to the entities they serve, and the "current" pointers of
//! the minds.

use crate::ids::{ClassId, EntityId, KindId};
use vstd::prelude::*;

verus! {

/// This tags an entity as a steering routine.
#[derive(Clone, Copy, PartialEq, Eq, Debug)]
pub struct SteeringRoutine {
    boid_entt: EntityId,
    kind: KindId,
}

impl SteeringRoutine {
    /// Tags a routine of kind `kind` serving the boid `boid_entt`.
    pub fn new(boid_entt: EntityId, kind: KindId) -> (r: SteeringRoutine)
        ensures
            r.spec_boid_entt() == boid_entt,
            r.spec_kind() == kind,
    {
        SteeringRoutine { kind, boid_entt }
    }

    /// The boid the routine serves.
    pub fn boid_entt(&self) -> (r: EntityId)
        ensures
            r == self.spec_boid_entt(),
    {
        self.boid_entt
    }

    /// The kind of the routine.
    pub fn kind(&self) -> (r: KindId)
        ensures
            r == self.spec_kind(),
    {
        self.kind
    }

    pub closed spec fn spec_boid_entt(&self) -> EntityId {
        self.boid_entt
    }

    pub closed spec fn spec_kind(&self) -> KindId {
        self.kind
    }
}

/// This tags an entity as a boid strategy.
#[derive(Clone, Copy, PartialEq, Eq, Debug)]
pub struct BoidStrategy {
    craft_entt: EntityId,
    kind: KindId,
}

impl BoidStrategy {
    /// Tags a strategy of kind `kind` steering the craft `craft_entt`.
    pub fn new(craft_entt: EntityId, kind: KindId) -> (r: BoidStrategy)
        ensures
            r.spec_craft_entt() == craft_entt,
            r.spec_kind() == kind,
    {
        BoidStrategy { craft_entt, kind }
    }

    /// The craft the strategy steers.
    pub fn craft_entt(&self) -> (r: EntityId)
        ensures
            r == self.spec_craft_entt(),
    {
        self.craft_entt
    }

    /// The kind of the strategy.
    pub fn kind(&self) -> (r: KindId)
        ensures
            r == self.spec_kind(),
    {
        self.kind
    }

    pub closed spec fn spec_craft_entt(&self) -> EntityId {
        self.craft_entt
    }

    pub closed spec fn spec_kind(&self) -> KindId {
        self.kind
    }
}

/// This tags an entity as a craft weapon.
#[derive(Clone, Copy, PartialEq, Eq, Debug)]
pub struct CraftWeapon {
    boid_entt: EntityId,
    kind: KindId,
    class: ClassId,
}

impl CraftWeapon {
    /// Tags a weapon of kind `kind` and class `class` mounted on `boid_entt`.
    pub fn new(boid_entt: EntityId, kind: KindId, class: ClassId) -> (r: CraftWeapon)
        ensures
            r.spec_boid_entt() == boid_entt,
            r.spec_kind() == kind,
            r.spec_class() == class,
    {
        CraftWeapon { boid_entt, kind, class }
    }

    /// The craft the weapon is mounted on.
    pub fn boid_entt(&self) -> (r: EntityId)
        ensures
            r == self.spec_boid_entt(),
    {
        self.boid_entt
    }

    /// The kind of the weapon.
    pub fn kind(&self) -> (r: KindId)
        ensures
            r == self.spec_kind(),
    {
        self.kind
    }

    /// The class of the weapon.
    pub fn class(self) -> (r: ClassId)
        ensures
            r == self.spec_class(),
    {
        self.class
    }

    pub closed spec fn spec_boid_entt(&self) -> EntityId {
        self.boid_entt
    }

    pub closed spec fn spec_kind(&self) -> KindId {
        self.kind
    }

    pub closed spec fn spec_class(self) -> ClassId {
        self.class
    }
}

/// This tags an entity as the formation of a flock.
#[derive(Clone, Copy, PartialEq, Eq, Debug)]
pub struct FlockFormation {
    flock_entt: EntityId,
}

impl FlockFormation {
    /// Tags the formation of the flock `flock_entt`.
    pub fn new(flock_entt: EntityId) -> (r: FlockFormation)
        ensures
            r.spec_flock_entt() == flock_entt,
    {
        FlockFormation { flock_entt }
    }

    /// The flock the formation belongs to.
    pub fn flock_entt(&self) -> (r: EntityId)
        ensures
            r == self.spec_flock_entt(),
    {
        self.flock_entt
    }

    pub closed spec fn spec_flock_entt(&self) -> EntityId {
        self.flock_entt
    }
}

/// The boid a formation is centered on.
#[derive(Clone, Copy, PartialEq, Eq, Debug)]
pub struct FormationCenterPivot {
    boid_entt: EntityId,
}

impl FormationCenterPivot {
    /// Centers a formation on `boid_entt`.
    pub fn new(boid_entt: EntityId) -> (r: FormationCenterPivot)
        ensures
            r.spec_boid_entt() == boid_entt,
    {
        FormationCenterPivot { boid_entt }
    }

    /// The boid the formation is centered on.
    pub fn boid_entt(&self) -> (r: EntityId)
        ensures
            r == self.spec_boid_entt(),
    {
        self.boid_entt
    }

    pub closed spec fn spec_boid_entt(&self) -> EntityId {
        self.boid_entt
    }
}

/// The steering routine a boid currently follows.
#[derive(Clone, Copy, PartialEq, Eq, Debug)]
pub struct CurrentSteeringRoutine {
    pub routine: Option<EntityId>,
}

/// The strategy a boid's mind currently runs.
#[derive(Clone, Copy, PartialEq, Eq, Debug)]
pub struct CurrentBoidStrategy {
    pub strategy: Option<EntityId>,
}

/// The formation a flock currently keeps.
#[derive(Clone, Copy, PartialEq, Eq, Debug)]
pub struct CurrentFlockFormation {
    pub formation: EntityId,
}

/// The craft the player currently flies.
#[derive(Clone, Copy, PartialEq, Eq, Debug)]
pub struct CurrentCraft {
    pub entt: Option<EntityId>,
}

/// An order to fire the weapon `weapon_id`.
#[derive(Clone, Copy, PartialEq, Eq, Debug)]
pub struct ActivateWeaponEvent {
    pub weapon_id: EntityId,
}

} // verus!
