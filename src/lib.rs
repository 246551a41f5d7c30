//! A collaborative map-editing server: rooms of peers that edit one shared
//! map document, with every accepted edit broadcast to the whole room.
pub mod document;
pub mod edit;
pub mod error;
pub mod laws;
pub mod protocol;
pub mod room;
pub mod server;
