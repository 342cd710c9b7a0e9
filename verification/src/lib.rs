//! Luma: a small rendering library whose shader translator, buffer
//! arithmetic, resource registry and window decisions are verified.

pub mod buffer;
pub mod registry;
pub mod shader_expand;
pub mod shader_gen;
pub mod shader_model;
pub mod space;
pub mod text;
pub mod ui;
