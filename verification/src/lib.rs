//! Core logic of the SWD desktop dashboard: plugin discovery and settings,
//! the click-through and media-card decisions, and the small computations the
//! desktop shell feeds with values it reads from the operating system.

pub mod hit_test;
pub mod media;
pub mod monitor;
pub mod plugins;
pub mod settings;
pub mod system_info;
pub mod tray;
pub mod window_layer;
