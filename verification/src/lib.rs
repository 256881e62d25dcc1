//! Decision logic of a photo-frame image server.

pub mod background;
pub mod color;
pub mod config;
pub mod degraded;
pub mod device;
pub mod duration;
pub mod locale;
pub mod mqtt;
pub mod overlays;
pub mod request;
pub mod schedule;
pub mod screen_state;
pub mod text;
pub mod time;
