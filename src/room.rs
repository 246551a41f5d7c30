//! A room: one lazily loaded document and the peers editing it.
use vstd::prelude::*;

use crate::document::{DocView, Document};
use crate::edit::{
    is_edit, request_applied, request_valid,
    create_layer_valid, created_layer, delete_group_valid, delete_layer_valid, group_change_applied,
    group_change_valid, layer_change_applied, layer_change_valid, layer_with_all, new_group_view,
    reorder_layer_applied, reorder_layer_valid, tile_change_applied, tile_change_valid,
};
use crate::error::ServerError;
use crate::protocol::{
    CreateGroup, CreateLayer, DeleteGroup, DeleteLayer, GroupChange, LayerChange, RoomRequest, TileChange,
};

verus! {

/// A document that is loaded on first use and dropped when its room empties.
pub struct LazyMap {
    path: String,
    map: Option<Document>,
    loads: Ghost<nat>,
    unloads: Ghost<nat>,
}

/// The state of a lazy document: whether it is resident, and how many times
/// it has been loaded and dropped.
pub struct LazyView {
    pub path: Seq<char>,
    pub doc: Option<DocView>,
    pub loads: nat,
    pub unloads: nat,
}

impl View for LazyMap {
    type V = LazyView;

    closed spec fn view(&self) -> LazyView {
        LazyView {
            path: self.path@,
            doc: match self.map {
                Some(d) => Some(d@),
                None => None,
            },
            loads: self.loads@,
            unloads: self.unloads@,
        }
    }
}

/// The state after a load attempt that produced `loaded`. A resident
/// document is kept as it is; nothing is loaded in its place.
pub open spec fn lazy_after_load(s: LazyView, loaded: Option<DocView>) -> LazyView {
    if s.doc is Some {
        s
    } else {
        match loaded {
            Some(d) => LazyView { doc: Some(d), loads: s.loads + 1, ..s },
            None => s,
        }
    }
}

/// The state after the document is dropped from memory.
pub open spec fn lazy_after_unload(s: LazyView) -> LazyView {
    LazyView { doc: None, unloads: s.unloads + 1, ..s }
}

impl LazyMap {
    /// A lazy document persisted at `path`, not yet loaded.
    pub fn new(path: String) -> (r: LazyMap)
        ensures
            r@ == (LazyView { path: path@, doc: None, loads: 0, unloads: 0 }),
    {
        LazyMap { path, map: None, loads: Ghost(0), unloads: Ghost(0) }
    }

    /// Where the document is persisted.
    pub fn path(&self) -> (r: &String)
        ensures
            r@ == self@.path,
    {
        &self.path
    }

    /// Whether the document must be loaded before it can be used.
    pub fn needs_load(&self) -> (r: bool)
        ensures
            r == (self@.doc is None),
    {
        self.map.is_none()
    }

    /// Takes the outcome of loading the document from its backing location.
    /// A resident document is never replaced; a failed load leaves the
    /// document absent and is reported as `ResourceUnavailable`.
    pub fn load(&mut self, loaded: Option<Document>) -> (r: Result<(), ServerError>)
        ensures
            final(self)@ == lazy_after_load(
                old(self)@,
                match loaded {
                    Some(d) => Some(d@),
                    None => None,
                },
            ),
            r is Ok <==> final(self)@.doc is Some,
            r matches Err(e) ==> e == ServerError::ResourceUnavailable,
    {
        if self.map.is_some() {
            return Ok(());
        }
        match loaded {
            Some(d) => {
                self.map = Some(d);
                self.loads = Ghost(self.loads@ + 1);
                Ok(())
            },
            None => Err(ServerError::ResourceUnavailable),
        }
    }

    /// Drops the document from memory. Unsaved edits are lost.
    pub fn unload(&mut self)
        ensures
            final(self)@ == lazy_after_unload(old(self)@),
    {
        self.map = None;
        self.unloads = Ghost(self.unloads@ + 1);
    }

    /// The resident document, if any.
    pub fn get(&self) -> (r: Option<&Document>)
        ensures
            match r {
                Some(d) => self@.doc == Some(d@),
                None => self@.doc is None,
            },
    {
        match &self.map {
            Some(d) => Some(d),
            None => None,
        }
    }

    /// An independent copy of the resident document: what is persisted or
    /// sent, so that no lock on the document is held while that happens.
    pub fn snapshot(&self) -> (r: Result<Document, ServerError>)
        ensures
            match r {
                Ok(d) => self@.doc == Some(d@),
                Err(e) => self@.doc is None && e == ServerError::ResourceUnavailable,
            },
    {
        match &self.map {
            Some(d) => Ok(d.duplicate()),
            None => Err(ServerError::ResourceUnavailable),
        }
    }
}

/// A room: a named document and the set of peers editing it. Peers are
/// known by a connection identifier.
pub struct Room {
    name: String,
    peers: Vec<u64>,
    map: LazyMap,
}

pub struct RoomView {
    pub name: Seq<char>,
    pub peers: Seq<u64>,
    pub map: LazyView,
}

impl View for Room {
    type V = RoomView;

    closed spec fn view(&self) -> RoomView {
        RoomView { name: self.name@, peers: self.peers@, map: self.map@ }
    }
}

impl RoomView {
    /// No peer is listed twice.
    pub open spec fn wf(self) -> bool {
        self.peers.no_duplicates()
    }

    /// The room with a different resident document.
    pub open spec fn with_doc(self, d: DocView) -> RoomView {
        RoomView { map: LazyView { doc: Some(d), ..self.map }, ..self }
    }
}

/// The peer set after `peer` joins.
pub open spec fn peers_with(peers: Seq<u64>, peer: u64) -> Seq<u64> {
    if peers.contains(peer) { peers } else { peers.push(peer) }
}

/// The room after `peer` leaves. When the last peer leaves, the document is
/// dropped from memory.
pub open spec fn room_after_leave(s: RoomView, peer: u64) -> RoomView {
    let peers = s.peers.remove_value(peer);
    RoomView {
        peers,
        map: if s.peers.contains(peer) && peers.len() == 0 { lazy_after_unload(s.map) } else { s.map },
        ..s
    }
}

/// What an edit did to a room `s`, leaving it as `t` with result `r`, given
/// whether the edit is valid for the resident document and what it makes of
/// it. Without a resident document nothing is done.
pub open spec fn edit_outcome(
    s: RoomView,
    t: RoomView,
    r: Result<(), ServerError>,
    valid: bool,
    post: DocView,
) -> bool {
    if s.map.doc is None {
        r == Err::<(), ServerError>(ServerError::ResourceUnavailable) && t == s
    } else if valid {
        r is Ok && t == s.with_doc(post)
    } else {
        r == Err::<(), ServerError>(ServerError::InvalidEdit) && t == s
    }
}

impl Room {
    /// An empty room named `name` whose document is persisted at `path`.
    pub fn new(name: String, path: String) -> (r: Room)
        ensures
            r@ == (RoomView {
                name: name@,
                peers: Seq::empty(),
                map: LazyView { path: path@, doc: None, loads: 0, unloads: 0 },
            }),
            r@.wf(),
    {
        let r = Room { name, peers: Vec::new(), map: LazyMap::new(path) };
        assert(r@.peers =~= Seq::<u64>::empty());
        r
    }

    /// The room's lazily loaded document.
    pub fn map(&self) -> (r: &LazyMap)
        ensures
            r@ == self@.map,
    {
        &self.map
    }

    pub fn name(&self) -> (r: &String)
        ensures
            r@ == self@.name,
    {
        &self.name
    }

    fn find_peer(&self, peer: u64) -> (r: Option<usize>)
        ensures
            match r {
                Some(i) => i < self@.peers.len() && self@.peers[i as int] == peer
                    && forall|j: int| 0 <= j < i ==> self@.peers[j] != peer,
                None => !self@.peers.contains(peer),
            },
    {
        let mut i: usize = 0;
        while i < self.peers.len()
            invariant
                i <= self.peers@.len(),
                forall|j: int| 0 <= j < i ==> self.peers@[j] != peer,
            decreases self.peers@.len() - i,
        {
            if self.peers[i] == peer {
                return Some(i);
            }
            i = i + 1;
        }
        None
    }

    /// Whether `peer` is in the room.
    pub fn has_peer(&self, peer: u64) -> (r: bool)
        ensures
            r == self@.peers.contains(peer),
    {
        self.find_peer(peer).is_some()
    }

    /// Adds `peer` to the room; a peer already there stays once.
    pub fn add_peer(&mut self, peer: u64)
        requires
            old(self)@.wf(),
        ensures
            final(self)@ == (RoomView { peers: peers_with(old(self)@.peers, peer), ..old(self)@ }),
            final(self)@.wf(),
    {
        if self.find_peer(peer).is_none() {
            self.peers.push(peer);
        }
    }

    pub fn peer_count(&self) -> (r: usize)
        ensures
            r == self@.peers.len(),
    {
        self.peers.len()
    }

    /// Removes `peer`. When the last peer leaves, the document is unloaded.
    pub fn remove_peer(&mut self, peer: u64)
        requires
            old(self)@.wf(),
        ensures
            final(self)@ == room_after_leave(old(self)@, peer),
            final(self)@.wf(),
    {
        let ghost before = self@;
        proof {
            before.peers.index_of_first_ensures(peer);
        }
        match self.find_peer(peer) {
            Some(i) => {
                self.peers.remove(i);
                assert(self@.peers =~= before.peers.remove_value(peer));
                if self.peers.len() == 0 {
                    self.map.unload();
                }
            },
            None => {
                assert(before.peers.remove_value(peer) == before.peers);
            },
        }
    }

    /// The peers of the room, in the order they joined.
    pub fn peers(&self) -> (r: Vec<u64>)
        ensures
            r@ == self@.peers,
    {
        let mut r: Vec<u64> = Vec::new();
        let mut i: usize = 0;
        while i < self.peers.len()
            invariant
                i <= self.peers@.len(),
                r@ =~= self.peers@.subrange(0, i as int),
            decreases self.peers@.len() - i,
        {
            r.push(self.peers[i]);
            i = i + 1;
        }
        assert(r@ =~= self.peers@);
        r
    }

    /// Whether the document must be loaded before the room can serve a request.
    pub fn needs_load(&self) -> (r: bool)
        ensures
            r == (self@.map.doc is None),
    {
        self.map.needs_load()
    }

    /// Takes the outcome of loading the room's document; see `LazyMap::load`.
    pub fn load(&mut self, loaded: Option<Document>) -> (r: Result<(), ServerError>)
        ensures
            final(self)@ == (RoomView {
                map: lazy_after_load(
                    old(self)@.map,
                    match loaded {
                        Some(d) => Some(d@),
                        None => None,
                    },
                ),
                ..old(self)@
            }),
            r is Ok <==> final(self)@.map.doc is Some,
            r matches Err(e) ==> e == ServerError::ResourceUnavailable,
    {
        self.map.load(loaded)
    }

    /// A copy of the document to serialize and send to one peer.
    pub fn send_map(&self) -> (r: Result<Document, ServerError>)
        ensures
            match r {
                Ok(d) => self@.map.doc == Some(d@),
                Err(e) => self@.map.doc is None && e == ServerError::ResourceUnavailable,
            },
    {
        self.map.snapshot()
    }

    /// A copy of the document to write to its backing location, taken so
    /// that the write happens without holding the document.
    pub fn save_map(&self) -> (r: Result<Document, ServerError>)
        ensures
            match r {
                Ok(d) => self@.map.doc == Some(d@),
                Err(e) => self@.map.doc is None && e == ServerError::ResourceUnavailable,
            },
    {
        self.map.snapshot()
    }

    /// Applies an edit request to the resident document.
    /// A request that is no edit is refused with `InvalidEdit`.
    pub fn apply(&mut self, req: &RoomRequest) -> (r: Result<(), ServerError>)
        ensures
            !is_edit(*req) ==> r == Err::<(), ServerError>(ServerError::InvalidEdit) && final(self)@ == old(self)@,
            is_edit(*req) ==> edit_outcome(
                old(self)@,
                final(self)@,
                r,
                request_valid(old(self)@.map.doc.unwrap(), *req),
                request_applied(old(self)@.map.doc.unwrap(), *req),
            ),
    {
        match req {
            RoomRequest::GroupChange(c) => self.edit_group(c),
            RoomRequest::LayerChange(c) => self.edit_layer(c),
            RoomRequest::TileChange(c) => self.set_tile(c),
            RoomRequest::CreateGroup(c) => self.create_group(c),
            RoomRequest::DeleteGroup(c) => self.delete_group(c),
            RoomRequest::CreateLayer(c) => self.create_layer(c),
            RoomRequest::DeleteLayer(c) => self.delete_layer(c),
            RoomRequest::FetchMap | RoomRequest::Save => Err(ServerError::InvalidEdit),
        }
    }

    /// A copy of the document to write to `path`, another location than
    /// its own, handed back with that path.
    pub fn save_copy(&self, path: String) -> (r: Result<(String, Document), ServerError>)
        ensures
            match r {
                Ok((p, d)) => p@ == path@ && self@.map.doc == Some(d@),
                Err(e) => self@.map.doc is None && e == ServerError::ResourceUnavailable,
            },
    {
        let doc = self.map.snapshot()?;
        Ok((path, doc))
    }

    pub fn set_tile(&mut self, edit_tile: &TileChange) -> (r: Result<(), ServerError>)
        ensures
            edit_outcome(
                old(self)@,
                final(self)@,
                r,
                tile_change_valid(old(self)@.map.doc.unwrap(), *edit_tile),
                tile_change_applied(old(self)@.map.doc.unwrap(), *edit_tile),
            ),
    {
        match &mut self.map.map {
            Some(d) => d.set_tile(edit_tile),
            None => Err(ServerError::ResourceUnavailable),
        }
    }

    pub fn create_group(&mut self, create_group: &CreateGroup) -> (r: Result<(), ServerError>)
        ensures
            edit_outcome(
                old(self)@,
                final(self)@,
                r,
                true,
                DocView { groups: old(self)@.map.doc.unwrap().groups.push(new_group_view(create_group.name@)) },
            ),
    {
        match &mut self.map.map {
            Some(d) => {
                d.create_group(create_group);
                Ok(())
            },
            None => Err(ServerError::ResourceUnavailable),
        }
    }

    pub fn edit_group(&mut self, edit_group: &GroupChange) -> (r: Result<(), ServerError>)
        ensures
            edit_outcome(
                old(self)@,
                final(self)@,
                r,
                group_change_valid(old(self)@.map.doc.unwrap(), *edit_group),
                group_change_applied(old(self)@.map.doc.unwrap(), *edit_group),
            ),
    {
        match &mut self.map.map {
            Some(d) => d.edit_group(edit_group),
            None => Err(ServerError::ResourceUnavailable),
        }
    }

    pub fn reorder_group(&mut self, group: u32, new_group: u32) -> (r: Result<(), ServerError>)
        ensures
            edit_outcome(
                old(self)@,
                final(self)@,
                r,
                group < old(self)@.map.doc.unwrap().groups.len()
                    && new_group < old(self)@.map.doc.unwrap().groups.len(),
                DocView {
                    groups: old(self)@.map.doc.unwrap().groups.remove(group as int).insert(
                        new_group as int,
                        old(self)@.map.doc.unwrap().groups[group as int],
                    ),
                },
            ),
    {
        match &mut self.map.map {
            Some(d) => d.reorder_group(group, new_group),
            None => Err(ServerError::ResourceUnavailable),
        }
    }

    pub fn delete_group(&mut self, delete_group: &DeleteGroup) -> (r: Result<(), ServerError>)
        ensures
            edit_outcome(
                old(self)@,
                final(self)@,
                r,
                delete_group_valid(old(self)@.map.doc.unwrap(), delete_group.group as int),
                DocView { groups: old(self)@.map.doc.unwrap().groups.remove(delete_group.group as int) },
            ),
    {
        match &mut self.map.map {
            Some(d) => d.delete_group(delete_group),
            None => Err(ServerError::ResourceUnavailable),
        }
    }

    pub fn create_layer(&mut self, create_layer: &CreateLayer) -> (r: Result<(), ServerError>)
        ensures
            edit_outcome(
                old(self)@,
                final(self)@,
                r,
                create_layer_valid(old(self)@.map.doc.unwrap(), *create_layer),
                layer_with_all(
                    old(self)@.map.doc.unwrap(),
                    create_layer.group as int,
                    old(self)@.map.doc.unwrap().groups[create_layer.group as int].layers.push(
                        created_layer(old(self)@.map.doc.unwrap(), *create_layer),
                    ),
                ),
            ),
    {
        match &mut self.map.map {
            Some(d) => d.create_layer(create_layer),
            None => Err(ServerError::ResourceUnavailable),
        }
    }

    pub fn edit_layer(&mut self, edit_layer: &LayerChange) -> (r: Result<(), ServerError>)
        ensures
            edit_outcome(
                old(self)@,
                final(self)@,
                r,
                layer_change_valid(old(self)@.map.doc.unwrap(), *edit_layer),
                layer_change_applied(old(self)@.map.doc.unwrap(), *edit_layer),
            ),
    {
        match &mut self.map.map {
            Some(d) => d.edit_layer(edit_layer),
            None => Err(ServerError::ResourceUnavailable),
        }
    }

    pub fn reorder_layer(&mut self, group: u32, layer: u32, new_group: u32, new_layer: u32) -> (r: Result<(), ServerError>)
        ensures
            edit_outcome(
                old(self)@,
                final(self)@,
                r,
                reorder_layer_valid(
                    old(self)@.map.doc.unwrap(),
                    group as int,
                    layer as int,
                    new_group as int,
                    new_layer as int,
                ),
                reorder_layer_applied(
                    old(self)@.map.doc.unwrap(),
                    group as int,
                    layer as int,
                    new_group as int,
                    new_layer as int,
                ),
            ),
    {
        match &mut self.map.map {
            Some(d) => d.reorder_layer(group, layer, new_group, new_layer),
            None => Err(ServerError::ResourceUnavailable),
        }
    }

    pub fn delete_layer(&mut self, delete_layer: &DeleteLayer) -> (r: Result<(), ServerError>)
        ensures
            edit_outcome(
                old(self)@,
                final(self)@,
                r,
                delete_layer_valid(old(self)@.map.doc.unwrap(), delete_layer.group as int, delete_layer.layer as int),
                layer_with_all(
                    old(self)@.map.doc.unwrap(),
                    delete_layer.group as int,
                    old(self)@.map.doc.unwrap().groups[delete_layer.group as int].layers.remove(
                        delete_layer.layer as int,
                    ),
                ),
            ),
    {
        match &mut self.map.map {
            Some(d) => d.delete_layer(delete_layer),
            None => Err(ServerError::ResourceUnavailable),
        }
    }
}

} // verus!
