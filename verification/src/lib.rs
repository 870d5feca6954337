//! Core orchestration layer of a small real-time interactive engine:
//! an entity-component store, a typed event bus, a registry of update
//! systems, a memoizing asset cache, and a bridge that copies rigid-body
//! poses from an external physics simulation back into entity transforms.
//!
//! Scalar quantities (positions, rotations, field-of-view angles) are
//! carried as opaque 32-bit patterns; all arithmetic on them happens in
//! the unverified rendering and physics layers. The verified core only
//! stores, routes and copies them, which is exactly what its contracts
//! state.

pub mod components;
pub mod world;
pub mod events;
pub mod assets;
pub mod systems;
pub mod time;
pub mod physics;
pub mod engine;
pub mod texel;
pub mod input;

pub use assets::AssetManager;
pub use components::{
    BodyHandle, BodyKind, Camera, MeshHandle, ModelHandle, ModelId, Quat, RigidBodyComponent,
    Scalar, Transform, Vec3,
};
pub use engine::Engine;
pub use events::{EventBus, EventHandler, EventLog, GameEvent};
pub use input::Action;
pub use physics::{PhysicsBridge, Pose};
pub use systems::{AspectSystem, System, SystemRegistry};
pub use time::Time;
pub use world::{ComponentSet, Entity, WorldError, WorldStore};
