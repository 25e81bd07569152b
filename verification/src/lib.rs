//! Verified core of the hilen engine: frame pacing, text caches and
//! layout lookups, font run merging, mesh topology, and the small
//! parsers and registries around them.

pub mod chars;
pub mod wsl;
pub mod redraw;
pub mod cache;
pub mod text_cache;
pub mod mesh;
pub mod runs;
pub mod text_layout;
pub mod pixels;
pub mod tint;
pub mod inspector;
pub mod runner;
pub mod settings;
pub mod fonts;
pub mod window;
pub mod props;
pub mod decode;
pub mod frame;
