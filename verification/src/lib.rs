//! A verified audio command engine: a playback cache keyed by song
//! identifier, and a command dispatcher that applies queued commands to it
//! in order.

pub mod assets;
pub mod audio;
pub mod errors;
