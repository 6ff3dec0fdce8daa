//! Sound-patch engine of a button-driven sound box: configuration checking,
//! the preload rendezvous, the patch of decoded clips, rising-edge detection
//! on input lines, and the broadcast and request rules of its network server.

pub mod key;
pub mod config;
pub mod rendezvous;
pub mod patch;
pub mod poll;
pub mod service;
