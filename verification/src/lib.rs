//! Aura: the platform-neutral core of a desktop music player.

pub mod text;
pub mod lyrics;
pub mod snapshot;
pub mod playback;

pub mod path;
pub mod url;
pub mod headers;
pub mod codec;
pub mod proxy;
pub mod stream;
pub mod request;
pub mod cache;
pub mod device_tier;
pub mod update;
pub mod download;
pub mod local_music;
pub mod mini;
pub mod window;
pub mod tray;
pub mod system_stats;
pub mod decimal;
