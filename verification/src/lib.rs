//! Terrain streaming core of a voxel world renderer: a hierarchical
//! level-of-detail store, a chunk mesh generator with face culling and
//! ambient occlusion, and a streaming manager that keeps a bounded set of
//! renderable chunk meshes in sync with world edits and camera movement.

pub mod client_init;
pub mod lod;
pub mod math;
pub mod mesh;
pub mod msg;
pub mod playstate;
pub mod scene;
pub mod volume;
