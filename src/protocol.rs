//! The messages exchanged between clients and the server.
//!
//! A request is a message from a client, a response one from the server.
//! Accepted edits are broadcast back to every client of the room, the sender
//! included, in the order the server applied them: replaying them in that
//! order keeps every client's copy equal to the server's document.
use vstd::prelude::*;

use crate::document::{Color, LayerKind};

verus! {

/// One change to the properties of a group.
#[derive(Clone, Debug, PartialEq, Eq)]
pub enum OneGroupChange {
    /// Move the group to this index.
    Order(u32),
    OffX(i32),
    OffY(i32),
    ParaX(i32),
    ParaY(i32),
    Name(String),
}

#[derive(Clone, Debug, PartialEq, Eq)]
pub struct GroupChange {
    pub group: u32,
    pub change: OneGroupChange,
}

/// Where a layer is moved to: a group, and an index within it.
#[derive(Clone, Copy, Debug, PartialEq, Eq, Structural)]
pub struct LayerOrderChange {
    pub group: u32,
    pub layer: u32,
}

/// One change to the properties of a layer.
#[derive(Clone, Debug, PartialEq, Eq)]
pub enum OneLayerChange {
    Order(LayerOrderChange),
    Name(String),
    Color(Color),
    Width(u32),
    Height(u32),
}

#[derive(Clone, Debug, PartialEq, Eq)]
pub struct LayerChange {
    pub group: u32,
    pub layer: u32,
    pub change: OneLayerChange,
}

/// Sets the identifier of one cell of the game layer.
#[derive(Clone, Copy, Debug, PartialEq, Eq, Structural)]
pub struct TileChange {
    pub group: u32,
    pub layer: u32,
    pub x: u32,
    pub y: u32,
    pub id: u8,
}

/// Appends an empty group with this name.
#[derive(Clone, Debug, PartialEq, Eq)]
pub struct CreateGroup {
    pub name: String,
}

#[derive(Clone, Copy, Debug, PartialEq, Eq, Structural)]
pub struct DeleteGroup {
    pub group: u32,
}

/// Appends a new layer of this kind and name to a group.
#[derive(Clone, Debug, PartialEq, Eq)]
pub struct CreateLayer {
    pub group: u32,
    pub kind: LayerKind,
    pub name: String,
}

#[derive(Clone, Copy, Debug, PartialEq, Eq, Structural)]
pub struct DeleteLayer {
    pub group: u32,
    pub layer: u32,
}

/// The number of peers in a room.
#[derive(Clone, Copy, Debug, PartialEq, Eq, Structural)]
pub struct Users {
    pub count: u32,
}

#[derive(Clone, Copy, Debug, PartialEq, Eq, Structural)]
pub enum InfoRequest {
    /// The list of all rooms.
    Maps,
}

/// A room's name and how many peers it holds.
#[derive(Clone, Debug, PartialEq, Eq)]
pub struct MapInfo {
    pub name: String,
    pub users: u32,
}

/// A request about the room the peer has joined.
#[derive(Clone, Debug, PartialEq, Eq)]
pub enum RoomRequest {
    GroupChange(GroupChange),
    LayerChange(LayerChange),
    TileChange(TileChange),
    CreateGroup(CreateGroup),
    DeleteGroup(DeleteGroup),
    CreateLayer(CreateLayer),
    DeleteLayer(DeleteLayer),
    /// The whole document, sent back to the requester alone as bytes.
    FetchMap,
    /// Write the document to its backing location.
    Save,
}

/// A message broadcast to every peer of a room.
#[derive(Clone, Debug, PartialEq, Eq)]
pub enum RoomResponse {
    GroupChange(GroupChange),
    LayerChange(LayerChange),
    TileChange(TileChange),
    CreateGroup(CreateGroup),
    DeleteGroup(DeleteGroup),
    CreateLayer(CreateLayer),
    DeleteLayer(DeleteLayer),
    Users(Users),
}

/// A request that needs no room.
#[derive(Clone, Debug, PartialEq, Eq)]
pub enum GlobalRequest {
    /// Join the room of this name.
    Join(String),
    /// List the rooms.
    Maps,
}

#[derive(Clone, Debug, PartialEq, Eq)]
pub enum GlobalResponse {
    Maps(Vec<MapInfo>),
    Join(bool),
    Refused(String),
}

#[derive(Clone, Debug, PartialEq, Eq)]
pub enum Request {
    Global(GlobalRequest),
    Room(RoomRequest),
}

} // verus!
