//! Verified core of a bridge that shows music-player activity as Discord
//! Rich Presence: text shaping, the presence state machine, the Discord IPC
//! frame format, reconnection back-off and IPC socket discovery.

pub mod frame;
pub mod paths;
pub mod presence;
pub mod reconnect;
pub mod session;
pub mod text;
