//! The registry of rooms and the routing of each peer's requests.
//!
//! A request is handled in three steps. If it concerns the peer's room and
//! that room's document is not resident, the caller loads it from its
//! backing location and hands it over (`room_to_load`, `load_room`). Then
//! `handle_request` decides and applies, and returns what is to be sent or
//! written; the caller carries that out without holding the registry.
use vstd::prelude::*;

use crate::document::{DocView, Document};
use crate::edit::{is_edit, mirror, request_applied, request_valid};
use crate::error::ServerError;
use crate::protocol::{GlobalRequest, GlobalResponse, MapInfo, Request, RoomRequest, RoomResponse, Users};
use crate::room::{peers_with, room_after_leave, Room, RoomView};

verus! {

/// A connected client: its connection identifier, and the room it has
/// joined, by index in the registry.
#[derive(Debug, Clone, Copy, PartialEq, Eq, Structural)]
pub struct Peer {
    pub id: u64,
    pub room: Option<usize>,
}

/// A message to a client.
#[derive(Debug, Clone, PartialEq, Eq)]
pub enum Response {
    Global(GlobalResponse),
    Room(RoomResponse),
}

/// Work left to the caller once a request has been decided.
#[derive(Debug)]
pub enum Outcome {
    /// Send `msg` to each of the peers `to`.
    Send { to: Vec<u64>, msg: Response },
    /// Serialize `doc`, the document of the map at `path`, and send the
    /// bytes to peer `to` alone.
    SendMap { to: u64, path: String, doc: Document },
    /// Write `doc` to `path`, the backing location of room `room`, one
    /// write per room at a time.
    Save { room: usize, path: String, doc: Document },
}

/// Whether `o` sends `msg` to exactly the peers `to`, in that order.
pub open spec fn is_send(o: Outcome, to: Seq<u64>, msg: Response) -> bool {
    o matches Outcome::Send { to: t, msg: m } && t@ == to && m == msg
}

/// Whether `o` sends the document `d` of the map at `path` to peer `to` alone.
pub open spec fn is_send_map(o: Outcome, to: u64, path: Seq<char>, d: DocView) -> bool {
    o matches Outcome::SendMap { to: t, path: p, doc } && t == to && p@ == path && doc@ == d
}

/// Whether `o` writes the document `d` to `path`, the backing location of room `room`.
pub open spec fn is_save(o: Outcome, room: int, path: Seq<char>, d: DocView) -> bool {
    o matches Outcome::Save { room: i, path: p, doc } && i == room && p@ == path && doc@ == d
}

/// What handling room request `req` from peer `p` does: the registry goes
/// from `s` to `t`, with result `r`. An accepted edit is applied to the
/// document of the peer's room and the very same change is sent to every
/// peer of that room, the sender included. A rejected request changes
/// nothing and sends nothing.
pub open spec fn room_request_outcome(
    s: ServerView,
    t: ServerView,
    p: Peer,
    req: RoomRequest,
    r: Result<Vec<Outcome>, ServerError>,
) -> bool {
    match p.room {
        None => r == Err::<Vec<Outcome>, ServerError>(ServerError::NotInRoom) && t == s,
        Some(i) => {
            let room = s.rooms[i as int];
            match room.map.doc {
                None => r == Err::<Vec<Outcome>, ServerError>(ServerError::ResourceUnavailable) && t == s,
                Some(d) => if req is FetchMap {
                    t == s && (r matches Ok(out) && out@.len() == 1 && is_send_map(out@[0], p.id, room.map.path, d))
                } else if req is Save {
                    t == s && (r matches Ok(out) && out@.len() == 1 && is_save(out@[0], i as int, room.map.path, d))
                } else if request_valid(d, req) {
                    &&& t == (ServerView { rooms: s.rooms.update(i as int, room.with_doc(request_applied(d, req))) })
                    &&& r matches Ok(out) && out@.len() == 1
                        && is_send(out@[0], room.peers, Response::Room(mirror(req)))
                } else {
                    r == Err::<Vec<Outcome>, ServerError>(ServerError::InvalidEdit) && t == s
                },
            }
        },
    }
}

/// What a join of peer `p` to the room named `name` does: the registry goes
/// from `s` to `t`, the peer becomes `q`, and `out` is sent. The peer first
/// leaves its room; it then joins the first room with that name, is
/// acknowledged, and the room is told its new peer count; or, if no room
/// has that name, it stays in none and the join is refused.
pub open spec fn join_outcome(s: ServerView, t: ServerView, p: Peer, q: Peer, name: Seq<char>, out: Seq<Outcome>) -> bool {
    let left = s.after_leave(p);
    &&& q.id == p.id
    &&& match q.room {
        Some(i) => left.is_first_named(i as int, name) && t == (ServerView {
            rooms: left.rooms.update(
                i as int,
                RoomView { peers: peers_with(left.rooms[i as int].peers, p.id), ..left.rooms[i as int] },
            ),
        }),
        None => !left.has_room(name) && t == left,
    }
    &&& out.len() >= 1
    &&& match q.room {
        Some(i) => out.len() >= 2 && is_send(
            out[out.len() - 2],
            seq![p.id],
            Response::Global(GlobalResponse::Join(true)),
        ) && is_send(
            out.last(),
            t.rooms[i as int].peers,
            Response::Room(RoomResponse::Users(Users { count: count_of(t.rooms[i as int].peers.len()) })),
        ),
        None => is_send(out.last(), seq![p.id], Response::Global(GlobalResponse::Join(false))),
    }
}

/// Whether `list` names every room of `s` in order, with its peer count.
pub open spec fn lists_rooms(s: ServerView, list: Seq<MapInfo>) -> bool {
    &&& list.len() == s.rooms.len()
    &&& forall|i: int| 0 <= i < list.len() ==> (#[trigger] list[i]).name@ == s.rooms[i].name
        && list[i].users == count_of(s.rooms[i].peers.len())
}

/// Whether `out` answers peer `id`'s listing request with the rooms of `s`.
pub open spec fn list_outcome(s: ServerView, id: u64, out: Seq<Outcome>) -> bool {
    out.len() == 1 && (out[0] matches Outcome::Send { to, msg } && to@ == seq![id]
        && (msg matches Response::Global(GlobalResponse::Maps(list)) && lists_rooms(s, list@)))
}

/// The registry: every room, by index.
pub struct Server {
    rooms: Vec<Room>,
}

pub struct ServerView {
    pub rooms: Seq<RoomView>,
}

impl View for Server {
    type V = ServerView;

    closed spec fn view(&self) -> ServerView {
        ServerView { rooms: self.rooms@.map_values(|r: Room| r@) }
    }
}

impl ServerView {
    /// Every room is well formed, an empty room holds no document, and no
    /// peer is in two rooms.
    pub open spec fn wf(self) -> bool {
        &&& forall|i: int| 0 <= i < self.rooms.len() ==> (#[trigger] self.rooms[i]).wf()
        &&& forall|i: int| 0 <= i < self.rooms.len() && (#[trigger] self.rooms[i]).peers.len() == 0
            ==> self.rooms[i].map.doc is None
        &&& forall|i: int, j: int, p: u64|
            #![trigger self.rooms[i].peers.contains(p), self.rooms[j].peers.contains(p)]
            0 <= i < self.rooms.len() && 0 <= j < self.rooms.len() && i != j
                && self.rooms[i].peers.contains(p) ==> !self.rooms[j].peers.contains(p)
    }

    /// The peer's room reference agrees with the rooms' peer sets.
    pub open spec fn holds(self, p: Peer) -> bool {
        &&& p.room matches Some(r) ==> r < self.rooms.len()
        &&& forall|i: int| 0 <= i < self.rooms.len() ==> ((#[trigger] self.rooms[i]).peers.contains(p.id)
            <==> (p.room is Some && p.room.unwrap() == i))
    }

    /// Whether room `i` is the first room named `name`.
    pub open spec fn is_first_named(self, i: int, name: Seq<char>) -> bool {
        &&& 0 <= i < self.rooms.len()
        &&& self.rooms[i].name == name
        &&& forall|j: int| 0 <= j < i ==> (#[trigger] self.rooms[j]).name != name
    }

    pub open spec fn has_room(self, name: Seq<char>) -> bool {
        exists|i: int| 0 <= i < self.rooms.len() && (#[trigger] self.rooms[i]).name == name
    }

    /// The registry after the peer leaves the room it is in, if any.
    pub open spec fn after_leave(self, p: Peer) -> ServerView {
        match p.room {
            Some(r) => ServerView { rooms: self.rooms.update(r as int, room_after_leave(self.rooms[r as int], p.id)) },
            None => self,
        }
    }
}

/// A peer count as reported to clients.
pub open spec fn count_of(n: nat) -> u32 {
    if n > u32::MAX { u32::MAX } else { n as u32 }
}

fn user_count(n: usize) -> (r: u32)
    ensures
        r == count_of(n as nat),
{
    if n > u32::MAX as usize { u32::MAX } else { n as u32 }
}

/// The broadcast form of an accepted edit: the request's own change.
fn into_response(req: RoomRequest) -> (r: RoomResponse)
    requires
        is_edit(req),
    ensures
        r == mirror(req),
{
    match req {
        RoomRequest::GroupChange(c) => RoomResponse::GroupChange(c),
        RoomRequest::LayerChange(c) => RoomResponse::LayerChange(c),
        RoomRequest::TileChange(c) => RoomResponse::TileChange(c),
        RoomRequest::CreateGroup(c) => RoomResponse::CreateGroup(c),
        RoomRequest::DeleteGroup(c) => RoomResponse::DeleteGroup(c),
        RoomRequest::CreateLayer(c) => RoomResponse::CreateLayer(c),
        RoomRequest::DeleteLayer(c) => RoomResponse::DeleteLayer(c),
        RoomRequest::FetchMap | RoomRequest::Save => RoomResponse::Users(Users { count: 0 }),
    }
}

impl Server {
    /// A registry without rooms.
    pub fn new() -> (r: Server)
        ensures
            r@.rooms.len() == 0,
            r@.wf(),
    {
        let r = Server { rooms: Vec::new() };
        assert(r@.rooms =~= Seq::<RoomView>::empty());
        r
    }

    /// Adds a room without peers and without a resident document.
    pub fn add_room(&mut self, room: Room)
        requires
            old(self)@.wf(),
            room@.peers.len() == 0,
            room@.map.doc is None,
        ensures
            final(self)@.rooms == old(self)@.rooms.push(room@),
            final(self)@.wf(),
    {
        let ghost before = self@;
        let ghost rv = room@;
        self.rooms.push(room);
        assert(self@.rooms =~= before.rooms.push(rv));
        assert(rv.peers.no_duplicates());
    }

    pub fn room_count(&self) -> (r: usize)
        ensures
            r == self@.rooms.len(),
    {
        self.rooms.len()
    }

    pub fn room(&self, i: usize) -> (r: &Room)
        requires
            i < self@.rooms.len(),
        ensures
            r@ == self@.rooms[i as int],
    {
        &self.rooms[i]
    }

    /// Every room's name and peer count, in registry order.
    pub fn list_rooms(&self) -> (r: Vec<MapInfo>)
        ensures
            lists_rooms(self@, r@),
    {
        let mut r: Vec<MapInfo> = Vec::new();
        let mut i: usize = 0;
        while i < self.rooms.len()
            invariant
                i <= self@.rooms.len(),
                r@.len() == i,
                forall|k: int| 0 <= k < i ==> (#[trigger] r@[k]).name@ == self@.rooms[k].name
                    && r@[k].users == count_of(self@.rooms[k].peers.len()),
            decreases self@.rooms.len() - i,
        {
            r.push(MapInfo { name: self.rooms[i].name().clone(), users: user_count(self.rooms[i].peer_count()) });
            i = i + 1;
        }
        r
    }

    /// The first room named `name`.
    pub fn find_room(&self, name: &String) -> (r: Option<usize>)
        ensures
            match r {
                Some(i) => self@.is_first_named(i as int, name@),
                None => !self@.has_room(name@),
            },
    {
        let mut i: usize = 0;
        while i < self.rooms.len()
            invariant
                i <= self@.rooms.len(),
                forall|j: int| 0 <= j < i ==> (#[trigger] self@.rooms[j]).name != name@,
            decreases self@.rooms.len() - i,
        {
            assert(self@.rooms[i as int] == self.rooms@[i as int]@);
            if self.rooms[i].name().eq(name) {
                return Some(i);
            }
            i = i + 1;
        }
        None
    }
}

proof fn lemma_remove_value(s: Seq<u64>, p: u64)
    requires
        s.no_duplicates(),
    ensures
        s.remove_value(p).no_duplicates(),
        forall|q: u64| #[trigger] s.remove_value(p).contains(q) <==> (s.contains(q) && q != p),
        s.contains(p) ==> s.remove_value(p).len() == s.len() - 1,
{
    s.index_of_first_ensures(p);
    let t = s.remove_value(p);
    match s.index_of_first(p) {
        Some(i) => {
            assert forall|q: u64| #[trigger] t.contains(q) <==> (s.contains(q) && q != p) by {
                if t.contains(q) {
                    let k = choose|k: int| 0 <= k < t.len() && t[k] == q;
                    if k < i {
                        assert(s[k] == q);
                    } else {
                        assert(s[k + 1] == q);
                    }
                }
                if s.contains(q) && q != p {
                    let k = choose|k: int| 0 <= k < s.len() && s[k] == q;
                    if k < i {
                        assert(t[k] == q);
                    } else {
                        assert(k != i);
                        assert(t[k - 1] == q);
                    }
                }
            }
        },
        None => {},
    }
}

proof fn lemma_push_fresh(s: Seq<u64>, p: u64)
    requires
        s.no_duplicates(),
        !s.contains(p),
    ensures
        s.push(p).no_duplicates(),
        forall|q: u64| #[trigger] s.push(p).contains(q) <==> (s.contains(q) || q == p),
{
    let t = s.push(p);
    assert forall|q: u64| #[trigger] t.contains(q) <==> (s.contains(q) || q == p) by {
        if t.contains(q) {
            let k = choose|k: int| 0 <= k < t.len() && t[k] == q;
            if k < s.len() {
                assert(s[k] == q);
            }
        }
        if s.contains(q) {
            let k = choose|k: int| 0 <= k < s.len() && s[k] == q;
            assert(t[k] == q);
        }
        if q == p {
            assert(t[s.len() as int] == q);
        }
    }
    assert forall|i: int, j: int| 0 <= i < t.len() && 0 <= j < t.len() && i != j implies t[i] != t[j] by {
        if i < s.len() && j == s.len() {
            assert(s.contains(s[i]));
        }
        if j < s.len() && i == s.len() {
            assert(s.contains(s[j]));
        }
    }
}

impl Server {
    /// Takes the peer out of the room it is in, if any, and tells the
    /// remaining peers of that room how many are left.
    pub fn leave(&mut self, peer: &mut Peer) -> (out: Vec<Outcome>)
        requires
            old(self)@.wf(),
            old(self)@.holds(*old(peer)),
        ensures
            final(self)@ == old(self)@.after_leave(*old(peer)),
            *final(peer) == (Peer { id: old(peer).id, room: None }),
            final(self)@.wf(),
            final(self)@.holds(*final(peer)),
            match old(peer).room {
                Some(r) => out@.len() == 1 && is_send(
                    out@[0],
                    final(self)@.rooms[r as int].peers,
                    Response::Room(RoomResponse::Users(Users {
                        count: count_of(final(self)@.rooms[r as int].peers.len()),
                    })),
                ),
                None => out@.len() == 0,
            },
    {
        let ghost before = self@;
        let mut out: Vec<Outcome> = Vec::new();
        match peer.room {
            Some(r) => {
                proof {
                    lemma_remove_value(before.rooms[r as int].peers, peer.id);
                }
                self.rooms[r].remove_peer(peer.id);
                assert(self@.rooms =~= before.after_leave(*peer).rooms);
                let to = self.rooms[r].peers();
                let count = user_count(self.rooms[r].peer_count());
                out.push(Outcome::Send { to, msg: Response::Room(RoomResponse::Users(Users { count })) });
                peer.room = None;
                let ghost after = self@;
                assert forall|i: int, j: int, q: u64|
                    0 <= i < after.rooms.len() && 0 <= j < after.rooms.len() && i != j
                    && after.rooms[i].peers.contains(q) implies !after.rooms[j].peers.contains(q) by {
                    assert(before.rooms[i].peers.contains(q));
                    if after.rooms[j].peers.contains(q) {
                        assert(before.rooms[j].peers.contains(q));
                    }
                }
                assert forall|i: int| 0 <= i < after.rooms.len() implies !(#[trigger] after.rooms[i]).peers.contains(peer.id) by {
                    if i != r {
                        assert(before.rooms[i].peers.contains(peer.id) <==> false);
                    }
                }
                assert(after.rooms[r as int].wf());
            },
            None => {},
        }
        out
    }

    /// Moves the peer to the first room named `name`. The peer first leaves
    /// its current room; if no room has that name it ends in none and the
    /// join is refused. Both rooms are told their new peer count.
    pub fn join_room(&mut self, peer: &mut Peer, name: &String) -> (out: Vec<Outcome>)
        requires
            old(self)@.wf(),
            old(self)@.holds(*old(peer)),
        ensures
            final(peer).id == old(peer).id,
            final(self)@.wf(),
            final(self)@.holds(*final(peer)),
            join_outcome(old(self)@, final(self)@, *old(peer), *final(peer), name@, out@),
    {
        let mut out = self.leave(peer);
        let ghost left = self@;
        match self.find_room(name) {
            Some(i) => {
                proof {
                    assert(!left.rooms[i as int].peers.contains(peer.id));
                    lemma_push_fresh(left.rooms[i as int].peers, peer.id);
                }
                self.rooms[i].add_peer(peer.id);
                peer.room = Some(i);
                let ghost after = self@;
                assert(after.rooms =~= left.rooms.update(
                    i as int,
                    RoomView { peers: peers_with(left.rooms[i as int].peers, peer.id), ..left.rooms[i as int] },
                ));
                assert forall|a: int, b: int, q: u64|
                    0 <= a < after.rooms.len() && 0 <= b < after.rooms.len() && a != b
                    && after.rooms[a].peers.contains(q) implies !after.rooms[b].peers.contains(q) by {
                    if q != peer.id {
                        assert(left.rooms[a].peers.contains(q));
                        if after.rooms[b].peers.contains(q) {
                            assert(left.rooms[b].peers.contains(q));
                        }
                    } else {
                        if a != i {
                            assert(left.rooms[a].peers.contains(q));
                        }
                        if b != i {
                            assert(!left.rooms[b].peers.contains(q));
                        }
                    }
                }
                assert forall|a: int| 0 <= a < after.rooms.len() && (#[trigger] after.rooms[a]).peers.len() == 0
                    implies after.rooms[a].map.doc is None by {
                    if a == i {
                        assert(after.rooms[a].peers.contains(peer.id));
                    }
                }
                assert forall|a: int| 0 <= a < after.rooms.len() implies ((#[trigger] after.rooms[a]).peers.contains(peer.id)
                    <==> (peer.room is Some && peer.room.unwrap() == a)) by {
                    if a != i {
                        assert(!left.rooms[a].peers.contains(peer.id));
                    } else {
                        assert(left.rooms[i as int].peers.push(peer.id).contains(peer.id));
                    }
                }
                let mut ack: Vec<u64> = Vec::new();
                ack.push(peer.id);
                assert(ack@ =~= seq![peer.id]);
                out.push(Outcome::Send { to: ack, msg: Response::Global(GlobalResponse::Join(true)) });
                let to = self.rooms[i].peers();
                let count = user_count(self.rooms[i].peer_count());
                out.push(Outcome::Send { to, msg: Response::Room(RoomResponse::Users(Users { count })) });
            },
            None => {
                let mut ack: Vec<u64> = Vec::new();
                ack.push(peer.id);
                assert(ack@ =~= seq![peer.id]);
                out.push(Outcome::Send { to: ack, msg: Response::Global(GlobalResponse::Join(false)) });
            },
        }
        out
    }
}

impl Server {
    /// The room whose document must be loaded before the peer's next room
    /// request can be served: the peer's room, when its document is absent.
    pub fn room_to_load(&self, peer: &Peer) -> (r: Option<usize>)
        requires
            self@.holds(*peer),
        ensures
            match r {
                Some(i) => peer.room == Some(i) && self@.rooms[i as int].map.doc is None,
                None => peer.room matches Some(i) ==> self@.rooms[i as int].map.doc is Some,
            },
    {
        match peer.room {
            Some(i) => if self.rooms[i].needs_load() {
                Some(i)
            } else {
                None
            },
            None => None,
        }
    }

    /// Takes the outcome of loading the document of the peer's room. A
    /// resident document is kept; a failed load is `ResourceUnavailable`.
    pub fn load_room(&mut self, peer: &Peer, loaded: Option<Document>) -> (r: Result<(), ServerError>)
        requires
            old(self)@.wf(),
            old(self)@.holds(*peer),
        ensures
            final(self)@.wf(),
            final(self)@.holds(*peer),
            match peer.room {
                None => r == Err::<(), ServerError>(ServerError::NotInRoom) && final(self)@ == old(self)@,
                Some(i) => final(self)@ == (ServerView {
                    rooms: old(self)@.rooms.update(
                        i as int,
                        RoomView {
                            map: crate::room::lazy_after_load(
                                old(self)@.rooms[i as int].map,
                                match loaded {
                                    Some(d) => Some(d@),
                                    None => None,
                                },
                            ),
                            ..old(self)@.rooms[i as int]
                        },
                    ),
                }) && (r is Ok <==> final(self)@.rooms[i as int].map.doc is Some)
                    && (r matches Err(e) ==> e == ServerError::ResourceUnavailable),
            },
    {
        match peer.room {
            Some(i) => {
                let ghost before = self@;
                assert(before.rooms[i as int].peers.contains(peer.id));
                let r = self.rooms[i].load(loaded);
                assert(self@.rooms =~= before.rooms.update(i as int, self@.rooms[i as int]));
                assert(self@.rooms[i as int].peers.contains(peer.id));
                r
            },
            None => Err(ServerError::NotInRoom),
        }
    }

    /// Serves a request about the peer's room.
    pub fn handle_room_request(&mut self, peer: &Peer, req: RoomRequest) -> (r: Result<Vec<Outcome>, ServerError>)
        requires
            old(self)@.wf(),
            old(self)@.holds(*peer),
        ensures
            final(self)@.wf(),
            final(self)@.holds(*peer),
            room_request_outcome(old(self)@, final(self)@, *peer, req, r),
    {
        let i = match peer.room {
            Some(i) => i,
            None => return Err(ServerError::NotInRoom),
        };
        let ghost before = self@;
        let mut out: Vec<Outcome> = Vec::new();
        match req {
            RoomRequest::FetchMap => {
                let doc = self.rooms[i].send_map()?;
                let path = self.rooms[i].map().path().clone();
                out.push(Outcome::SendMap { to: peer.id, path, doc });
            },
            RoomRequest::Save => {
                let doc = self.rooms[i].save_map()?;
                let path = self.rooms[i].map().path().clone();
                out.push(Outcome::Save { room: i, path, doc });
            },
            _ => {
                let applied = self.rooms[i].apply(&req);
                assert(self@.rooms =~= before.rooms.update(i as int, self@.rooms[i as int]));
                if let Err(e) = applied {
                    assert(self@.rooms =~= before.rooms);
                    return Err(e);
                }
                let to = self.rooms[i].peers();
                out.push(Outcome::Send { to, msg: Response::Room(into_response(req)) });
            },
        }
        Ok(out)
    }

    /// Serves one request of a peer: a join or a listing of the rooms, or a
    /// request about the peer's room.
    pub fn handle_request(&mut self, peer: &mut Peer, req: Request) -> (r: Result<Vec<Outcome>, ServerError>)
        requires
            old(self)@.wf(),
            old(self)@.holds(*old(peer)),
        ensures
            final(self)@.wf(),
            final(self)@.holds(*final(peer)),
            match req {
                Request::Room(rr) => *final(peer) == *old(peer)
                    && room_request_outcome(old(self)@, final(self)@, *old(peer), rr, r),
                Request::Global(GlobalRequest::Maps) => *final(peer) == *old(peer) && final(self)@ == old(self)@
                    && (r matches Ok(out) && list_outcome(old(self)@, old(peer).id, out@)),
                Request::Global(GlobalRequest::Join(name)) => r matches Ok(out)
                    && join_outcome(old(self)@, final(self)@, *old(peer), *final(peer), name@, out@),
            },
    {
        match req {
            Request::Room(rr) => self.handle_room_request(peer, rr),
            Request::Global(GlobalRequest::Maps) => {
                let list = self.list_rooms();
                let mut to: Vec<u64> = Vec::new();
                to.push(peer.id);
                assert(to@ =~= seq![peer.id]);
                let mut out: Vec<Outcome> = Vec::new();
                out.push(Outcome::Send { to, msg: Response::Global(GlobalResponse::Maps(list)) });
                Ok(out)
            },
            Request::Global(GlobalRequest::Join(name)) => Ok(self.join_room(peer, &name)),
        }
    }
}

} // verus!
