//! The types that the application reads from a room.

pub use crate::gossip::doc::chat::ChatMessage;
