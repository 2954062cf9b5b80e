//! Plain data carried by the simulation layer: the per-entity components,
//! the body-set entries, and the values exchanged with the input layer and
//! the physics engine.

use vstd::prelude::*;

verus! {

/// Component of an entity that has a physics representation: the handle of
/// its rigid body in the body set. The handle must reference a live entry
/// for as long as the component exists.
#[derive(Clone, Copy, Debug, PartialEq, Eq)]
pub struct PhysicsBody {
    pub body_handle: usize,
}

/// Component holding the handle of an entity's collider in the collider set.
/// Always co-present with `PhysicsBody` on the same entity: every physical
/// entity has exactly one collider.
#[derive(Clone, Copy, Debug, PartialEq, Eq)]
pub struct Collider {
    pub coll_handle: usize,
}

/// The component data of one live entity. `info_displayed` is the marker for
/// the entity whose inspection panel is shown; at most one live entity may
/// carry it at a time.
#[derive(Clone, Copy, Debug, PartialEq, Eq)]
pub struct EntityData {
    pub physics: Option<PhysicsBody>,
    pub collider: Option<Collider>,
    pub info_displayed: bool,
}

/// The per-body state this layer reads and writes: whether the body is
/// active (awake) in the simulation. The engine may put bodies to sleep;
/// `MainState::reactivate_all` wakes them again.
#[derive(Clone, Copy, Debug, PartialEq, Eq)]
pub struct RigidBody {
    pub active: bool,
}

/// The four directional key states, polled by the input layer and handed in
/// as plain booleans. The keys are independent: diagonal motion holds two of
/// them at once.
#[derive(Clone, Copy, Debug, PartialEq, Eq)]
pub struct InputState {
    pub up: bool,
    pub down: bool,
    pub left: bool,
    pub right: bool,
}

/// One commanded invocation of the physics engine's step function. The
/// caller executes the commands in order, passing the same physics
/// containers (bodies, colliders, joint constraints, force generators) to
/// each invocation together with the given timestep.
///
/// The timestep is in microseconds of simulated time per sub-step; a paused
/// simulation still steps, with a timestep of exactly zero.
#[derive(Clone, Copy, Debug, PartialEq, Eq)]
pub struct StepCommand {
    pub timestep_micros: u32,
}

} // verus!
