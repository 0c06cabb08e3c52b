//! A software 3D rendering and rigid-body physics core.
//!
//! Geometry is carried in fixed-point coordinates (see [`fixed`]), so every
//! arithmetic step has an exact, verifiable meaning.  The host program is
//! responsible for presentation, input and any floating-point conversion at
//! the boundary.

pub mod camera;
pub mod collider;
pub mod collision;
pub mod default_objects;
pub mod fixed;
pub mod matrix;
pub mod mesh;
pub mod object;
pub mod physics_manager;
pub mod pixel;
pub mod ray;
pub mod raycast;
pub mod render_context;
pub mod renderer;
pub mod rigidbody;
pub mod shader;
pub mod transform;
pub mod vector;
pub mod vertex;

pub use fixed::SCALE;
