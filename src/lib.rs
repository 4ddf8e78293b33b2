//! Recolouring of subtitle glyph images: the per-pixel tonemap, the settings that
//! choose it, and the stage sequence that each subtitle file goes through.

pub mod buffer;
pub mod config;
pub mod names;
pub mod pipeline;
pub mod pixel;
pub mod tonemap;
