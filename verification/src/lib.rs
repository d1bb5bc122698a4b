//! Verified core of Slipway, its command line and its server: rig permissions,
//! API keys and shared access signatures, playlist scheduling and refresh times,
//! the shape of a rig's result (rotation, 1-bit bitmaps, HTML pages, generated URLs),
//! and the repository of devices, playlists and rigs.

pub mod clock;
pub mod errors;
pub mod hex;
pub mod sas;
pub mod text;
pub mod permissions;
pub mod schedule;
pub mod refresh;
pub mod bmp;
pub mod repository;
pub mod auth;
pub mod api_keys;
pub mod rotation;
pub mod rig_response;
pub mod pages;
pub mod trmnl;
pub mod canvas;
pub mod log_level;
pub mod line_buffer;
pub mod package;
pub mod debugger;
pub mod rig_output;
pub mod view_model;
