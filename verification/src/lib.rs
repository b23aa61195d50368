//! Real-time rendering core of an audio mixing engine.
//!
//! Control code enqueues commands; the renderer drains them once per tick,
//! advances every playing instance, routes the frames through the mixer and
//! hands heavyweight values that left the live state to a reclamation channel.

pub mod audio_stream;
pub mod channel;
pub mod command;
pub mod error;
pub mod group;
pub mod ident;
pub mod manager;
pub mod instance;
pub mod mixer;
pub mod names;
pub mod ordered;
pub mod playable;
pub mod resource;
pub mod signal;
pub mod sound;
pub mod table;
pub mod util;
