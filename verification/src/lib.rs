//! Lifecycle synchronization between an entity/component store and a
//! rigid-body physics simulation.
//!
//! Physics engines and entity stores own independent handle spaces; removing
//! an object from one without the other leaves dangling handles behind. This
//! crate keeps the two sides consistent: every entity with a physics
//! representation holds a `PhysicsBody` and a `Collider` component whose
//! handles always reference live entries in the body and collider sets, and
//! the deletion, reactivation, stepping, selection and camera operations
//! preserve that invariant.
//!
//! Input polling, rendering and the physics math itself are external
//! collaborators: the input layer hands in plain key states, and the stepper
//! hands back a list of step commands for the engine to execute.

pub mod components;
pub mod laws;
pub mod main_state;
pub mod model;
