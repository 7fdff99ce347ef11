//! Verified core of a Stream Deck plugin that drives any number of named
//! OBS Studio instances over OBS WebSocket v5.

pub mod config;
pub mod contracts;
pub mod json;
pub mod kind;
pub mod ops;
pub mod pool;
pub mod raw;
pub mod render;
pub mod state;
pub mod status;
pub mod table;
pub mod text;
