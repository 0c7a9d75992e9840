//! Headless core of an interactive 2D scene viewer.
//!
//! The crate tracks the application mode, keeps the registry of scene
//! entities, carries the pointer into the scene, decides which entity the
//! pointer is over, and moves selection, hover and spawn events between the
//! systems of one frame. A front end feeds it the facts of each frame and
//! draws what the registry holds.

pub mod controller;
pub mod events;
pub mod maps;
pub mod mouse;
pub mod playback;
pub mod ragdoll;
pub mod scene;
pub mod state;
pub mod ui;
