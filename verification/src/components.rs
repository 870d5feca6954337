//! Plain component data attached to entities.
//!
//! Scalars are opaque 32-bit patterns: the core never does arithmetic on
//! them, it only stores and copies them, so their numeric interpretation
//! is left entirely to the unverified layers that produce and consume
//! them.

use vstd::prelude::*;

verus! {

/// An opaque scalar quantity. The core copies and compares these bit
/// patterns; it never interprets them numerically.
#[derive(Clone, Copy, PartialEq, Eq, Structural, Debug)]
pub struct Scalar(pub u32);

/// A three-component vector of opaque scalars.
#[derive(Clone, Copy, PartialEq, Eq, Structural, Debug)]
pub struct Vec3 {
    pub x: Scalar,
    pub y: Scalar,
    pub z: Scalar,
}

/// A rotation quaternion of opaque scalars, scalar-last (x, y, z, w).
/// The physics bridge preserves this component order exactly when it
/// copies poses out of the simulation.
#[derive(Clone, Copy, PartialEq, Eq, Structural, Debug)]
pub struct Quat {
    pub x: Scalar,
    pub y: Scalar,
    pub z: Scalar,
    pub w: Scalar,
}

/// Position, orientation and scale of an entity. The rendering layer
/// derives a 4x4 matrix from these fields.
#[derive(Clone, Copy, PartialEq, Eq, Structural, Debug)]
pub struct Transform {
    pub translation: Vec3,
    pub rotation: Quat,
    pub scale: Vec3,
}

/// A perspective camera. The aspect ratio is kept as an exact
/// width/height pair; the rendering layer performs the division when it
/// builds the projection matrix.
#[derive(Clone, Copy, PartialEq, Eq, Structural, Debug)]
pub struct Camera {
    pub eye: Vec3,
    pub center: Vec3,
    pub up: Vec3,
    pub fovy: Scalar,
    pub aspect_width: u32,
    pub aspect_height: u32,
    pub znear: Scalar,
    pub zfar: Scalar,
}

/// A stable index into the asset cache's model table.
#[derive(Clone, Copy, PartialEq, Eq, Structural, Debug)]
pub struct ModelId(pub usize);

/// Component form of a model reference carried by an entity.
#[derive(Clone, Copy, PartialEq, Eq, Structural, Debug)]
pub struct ModelHandle(pub usize);

/// A stable index into a renderer-owned mesh table.
#[derive(Clone, Copy, PartialEq, Eq, Structural, Debug)]
pub struct MeshHandle(pub usize);

/// A handle into the external physics engine's rigid-body set, carried
/// as the raw index/generation pair the engine encodes its handles with.
#[derive(Clone, Copy, PartialEq, Eq, Structural, Debug)]
pub struct BodyHandle {
    pub index: u32,
    pub generation: u32,
}

/// Component linking an entity to its rigid body in the external
/// physics simulation.
#[derive(Clone, Copy, PartialEq, Eq, Structural, Debug)]
pub struct RigidBodyComponent(pub BodyHandle);

/// The kind of rigid body to create for an entity.
#[derive(Clone, Copy, PartialEq, Eq, Structural, Debug)]
pub enum BodyKind {
    Static,
    Dynamic,
    Kinematic,
}

} // verus!
