//! Verified core of a Dear ImGui backend for Godot: texture ids, draw-command
//! planning, triangle clipping bookkeeping and canvas lifecycle decisions.

pub mod registry;
pub mod render;
pub mod clip;
pub mod canvas;
pub mod atlas;
pub mod signal;
