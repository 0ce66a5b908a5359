//! The interaction core of a small desktop: icons that can be picked up with
//! the pointer, dragged, and dropped on a trash bin.
//!
//! Coordinates are whole units. The host converts its own measures to them
//! and performs the outside work (drawing, sound) that each [`Effect`] names.

pub mod geometry;
pub mod scene;
pub mod pointer;
mod random;

pub use geometry::{check_cursor_in_icon, to_scene, DevicePoint, Point, Window};
pub use pointer::{Button, Effect, Input};
pub use scene::{Desktop, Icon, Layout, Scene, SceneView, Spot};
