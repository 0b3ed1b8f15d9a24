//! Rhythm-game level engine: keyframe movements evaluated on a fixed-point
//! beat clock, a timeline renderer, and an editor with coalescing undo/redo.

pub mod action;
pub mod clipboard;
pub mod drag;
pub mod editor;
pub mod history;
pub mod input;
pub mod level;
pub mod meta;
pub mod movement;
pub mod render;
pub mod timing;
pub mod transform;
pub mod widget;
