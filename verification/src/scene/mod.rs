//! The scene-side terrain state: the streaming manager that keeps resident
//! chunk meshes in sync with world edits, worker results and the camera.

pub mod terrain;
