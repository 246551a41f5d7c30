use map_server::document::{Clip, Color, Document, Grid, Group, Layer, LayerKind};
use map_server::error::{server_error, ServerError};
use map_server::protocol::{
    CreateGroup, CreateLayer, DeleteGroup, DeleteLayer, GlobalRequest, GlobalResponse, GroupChange,
    LayerChange, LayerOrderChange, OneGroupChange, OneLayerChange, Request, RoomRequest, RoomResponse,
    TileChange, Users,
};
use map_server::room::{LazyMap, Room};
use map_server::server::{Outcome, Peer, Response, Server};

fn no_clip() -> Clip {
    Clip { enabled: false, x: 0, y: 0, w: 0, h: 0 }
}

fn white() -> Color {
    Color { r: 255, g: 255, b: 255, a: 255 }
}

fn grid_layer(kind: LayerKind, w: usize, h: usize) -> Layer {
    Layer { kind, name: String::new(), color: white(), grid: Some(Grid::new(w, h)), extra: None }
}

/// Group 0 is the physics group with a game layer of `w` by `h`; group 1
/// holds a tiles layer and a quads layer.
fn sample_doc(w: usize, h: usize) -> Document {
    let physics = Group {
        name: "Game".to_string(),
        offset_x: 0,
        offset_y: 0,
        parallax_x: 100,
        parallax_y: 100,
        clip: no_clip(),
        layers: vec![grid_layer(LayerKind::Game, w, h), grid_layer(LayerKind::Front, w, h)],
    };
    let background = Group {
        name: "bg".to_string(),
        offset_x: 0,
        offset_y: 0,
        parallax_x: 50,
        parallax_y: 50,
        clip: no_clip(),
        layers: vec![
            Layer { kind: LayerKind::Tiles, name: "deco".to_string(), color: white(), grid: Some(Grid::new(3, 3)), extra: None },
            Layer { kind: LayerKind::Quads, name: "sky".to_string(), color: white(), grid: None, extra: None },
        ],
    };
    Document { groups: vec![physics, background] }
}

fn server_with(names: &[&str]) -> Server {
    let mut server = Server::new();
    for n in names {
        server.add_room(Room::new(n.to_string(), format!("maps/{}/map.map", n)));
    }
    server
}

fn join(server: &mut Server, peer: &mut Peer, name: &str) -> Vec<Outcome> {
    server.handle_request(peer, Request::Global(GlobalRequest::Join(name.to_string()))).unwrap()
}

fn ensure_loaded(server: &mut Server, peer: &Peer, doc: Document) {
    if server.room_to_load(peer).is_some() {
        server.load_room(peer, Some(doc)).unwrap();
    }
}

fn fetch(server: &mut Server, peer: &mut Peer) -> Document {
    let out = server.handle_request(peer, Request::Room(RoomRequest::FetchMap)).unwrap();
    assert_eq!(out.len(), 1);
    match out.into_iter().next().unwrap() {
        Outcome::SendMap { to, path, doc } => {
            assert_eq!(to, peer.id);
            assert!(path.ends_with("map.map"));
            doc
        }
        other => panic!("unexpected outcome {:?}", other),
    }
}

fn room_request(server: &mut Server, peer: &mut Peer, req: RoomRequest) -> Result<Vec<Outcome>, ServerError> {
    server.handle_request(peer, Request::Room(req))
}

#[test]
fn tile_change_reaches_every_peer_and_the_document() {
    let mut server = server_with(&["desert"]);
    let mut a = Peer { id: 1, room: None };
    let mut b = Peer { id: 2, room: None };
    join(&mut server, &mut a, "desert");
    join(&mut server, &mut b, "desert");
    ensure_loaded(&mut server, &a, sample_doc(2, 2));
    let change = TileChange { group: 0, layer: 0, x: 0, y: 0, id: 5 };
    let out = room_request(&mut server, &mut a, RoomRequest::TileChange(change)).unwrap();
    assert_eq!(out.len(), 1);
    match &out[0] {
        Outcome::Send { to, msg } => {
            assert_eq!(to, &vec![1u64, 2]);
            assert_eq!(msg, &Response::Room(RoomResponse::TileChange(change)));
        }
        other => panic!("unexpected outcome {:?}", other),
    }
    for peer in [&mut a, &mut b] {
        let doc = fetch(&mut server, peer);
        assert_eq!(doc.groups[0].layers[0].grid.as_ref().unwrap().rows[0][0].id, 5);
    }
}

#[test]
fn renaming_the_physics_group_fails() {
    let mut server = server_with(&["desert"]);
    let mut a = Peer { id: 1, room: None };
    join(&mut server, &mut a, "desert");
    ensure_loaded(&mut server, &a, sample_doc(2, 2));
    let req = RoomRequest::GroupChange(GroupChange { group: 0, change: OneGroupChange::Name("lobby".to_string()) });
    assert_eq!(room_request(&mut server, &mut a, req).unwrap_err(), ServerError::InvalidEdit);
    assert_eq!(fetch(&mut server, &mut a).groups[0].name, "Game");
}

#[test]
fn document_is_reloaded_after_the_room_empties() {
    let mut server = server_with(&["desert"]);
    let mut a = Peer { id: 1, room: None };
    join(&mut server, &mut a, "desert");
    ensure_loaded(&mut server, &a, sample_doc(2, 2));
    let change = TileChange { group: 0, layer: 0, x: 1, y: 1, id: 9 };
    room_request(&mut server, &mut a, RoomRequest::TileChange(change)).unwrap();
    let out = server.leave(&mut a);
    assert_eq!(out.len(), 1);
    assert!(server.room(0).needs_load());
    let mut b = Peer { id: 2, room: None };
    join(&mut server, &mut b, "desert");
    assert_eq!(server.room_to_load(&b), Some(0));
    let persisted = sample_doc(2, 2);
    server.load_room(&b, Some(persisted.clone())).unwrap();
    assert_eq!(fetch(&mut server, &mut b), persisted);
}

#[test]
fn join_and_leave_report_presence() {
    let mut server = server_with(&["desert", "forest"]);
    let mut a = Peer { id: 1, room: None };
    let mut b = Peer { id: 2, room: None };
    join(&mut server, &mut a, "desert");
    let out = join(&mut server, &mut b, "desert");
    assert_eq!(out.len(), 2);
    match (&out[0], &out[1]) {
        (Outcome::Send { to: t0, msg: m0 }, Outcome::Send { to: t1, msg: m1 }) => {
            assert_eq!(t0, &vec![2u64]);
            assert_eq!(m0, &Response::Global(GlobalResponse::Join(true)));
            assert_eq!(t1, &vec![1u64, 2]);
            assert_eq!(m1, &Response::Room(RoomResponse::Users(Users { count: 2 })));
        }
        _ => panic!("unexpected outcomes"),
    }
    let out = join(&mut server, &mut b, "forest");
    assert_eq!(out.len(), 3);
    match &out[0] {
        Outcome::Send { to, msg } => {
            assert_eq!(to, &vec![1u64]);
            assert_eq!(msg, &Response::Room(RoomResponse::Users(Users { count: 1 })));
        }
        _ => panic!("unexpected outcome"),
    }
    assert_eq!(b.room, Some(1));
    assert_eq!(server.room(0).peer_count(), 1);
    assert_eq!(server.room(1).peers(), vec![2u64]);
}

#[test]
fn joining_an_unknown_room_is_refused() {
    let mut server = server_with(&["desert"]);
    let mut a = Peer { id: 1, room: None };
    join(&mut server, &mut a, "desert");
    let out = join(&mut server, &mut a, "nowhere");
    assert_eq!(a.room, None);
    match out.last().unwrap() {
        Outcome::Send { to, msg } => {
            assert_eq!(to, &vec![1u64]);
            assert_eq!(msg, &Response::Global(GlobalResponse::Join(false)));
        }
        _ => panic!("unexpected outcome"),
    }
    assert_eq!(server.room(0).peer_count(), 0);
    assert!(server.room(0).needs_load());
}

#[test]
fn list_rooms_reports_peer_counts() {
    let mut server = server_with(&["desert", "forest"]);
    let mut a = Peer { id: 1, room: None };
    join(&mut server, &mut a, "forest");
    let out = server.handle_request(&mut a, Request::Global(GlobalRequest::Maps)).unwrap();
    match &out[0] {
        Outcome::Send { to, msg: Response::Global(GlobalResponse::Maps(list)) } => {
            assert_eq!(to, &vec![1u64]);
            assert_eq!(list.len(), 2);
            assert_eq!(list[0].name, "desert");
            assert_eq!(list[0].users, 0);
            assert_eq!(list[1].name, "forest");
            assert_eq!(list[1].users, 1);
        }
        _ => panic!("unexpected outcome"),
    }
}

#[test]
fn broadcast_stays_within_the_room() {
    let mut server = server_with(&["desert", "forest"]);
    let mut a = Peer { id: 1, room: None };
    let mut b = Peer { id: 2, room: None };
    let mut c = Peer { id: 3, room: None };
    join(&mut server, &mut a, "desert");
    join(&mut server, &mut b, "forest");
    join(&mut server, &mut c, "desert");
    ensure_loaded(&mut server, &a, sample_doc(2, 2));
    let change = TileChange { group: 0, layer: 0, x: 1, y: 0, id: 3 };
    let out = room_request(&mut server, &mut c, RoomRequest::TileChange(change)).unwrap();
    match &out[0] {
        Outcome::Send { to, .. } => {
            assert_eq!(to, &vec![1u64, 3]);
            assert!(!to.contains(&2));
        }
        _ => panic!("unexpected outcome"),
    }
}

#[test]
fn room_request_without_a_room_fails() {
    let mut server = server_with(&["desert"]);
    let mut a = Peer { id: 1, room: None };
    assert_eq!(room_request(&mut server, &mut a, RoomRequest::Save).unwrap_err(), ServerError::NotInRoom);
    assert_eq!(server.load_room(&a, Some(sample_doc(2, 2))), Err(ServerError::NotInRoom));
}

#[test]
fn failed_load_is_resource_unavailable() {
    let mut server = server_with(&["desert"]);
    let mut a = Peer { id: 1, room: None };
    join(&mut server, &mut a, "desert");
    assert_eq!(server.load_room(&a, None), Err(ServerError::ResourceUnavailable));
    assert_eq!(room_request(&mut server, &mut a, RoomRequest::FetchMap).unwrap_err(), ServerError::ResourceUnavailable);
    assert_eq!(server_error("disk full"), ServerError::ResourceUnavailable);
}

#[test]
fn save_hands_out_a_copy_and_the_path() {
    let mut server = server_with(&["desert"]);
    let mut a = Peer { id: 1, room: None };
    join(&mut server, &mut a, "desert");
    ensure_loaded(&mut server, &a, sample_doc(2, 2));
    let out = room_request(&mut server, &mut a, RoomRequest::Save).unwrap();
    match &out[0] {
        Outcome::Save { room, path, doc } => {
            assert_eq!(*room, 0);
            assert_eq!(path, "maps/desert/map.map");
            assert_eq!(doc, &sample_doc(2, 2));
        }
        _ => panic!("unexpected outcome"),
    }
}

#[test]
fn lazy_map_loads_once_until_unloaded() {
    let mut map = LazyMap::new("maps/a/map.map".to_string());
    assert!(map.needs_load());
    assert!(map.get().is_none());
    assert_eq!(map.load(Some(sample_doc(2, 2))), Ok(()));
    assert!(!map.needs_load());
    // a resident document is not replaced
    assert_eq!(map.load(Some(sample_doc(4, 4))), Ok(()));
    assert_eq!(map.get().unwrap(), &sample_doc(2, 2));
    map.unload();
    assert!(map.needs_load());
    assert_eq!(map.path(), "maps/a/map.map");
}

#[test]
fn last_peer_leaving_unloads() {
    let mut room = Room::new("desert".to_string(), "p".to_string());
    room.add_peer(1);
    room.add_peer(2);
    room.add_peer(1);
    assert_eq!(room.peer_count(), 2);
    room.load(Some(sample_doc(2, 2))).unwrap();
    room.remove_peer(1);
    assert!(!room.needs_load());
    room.remove_peer(2);
    assert!(room.needs_load());
    assert_eq!(room.send_map().unwrap_err(), ServerError::ResourceUnavailable);
}

#[test]
fn clients_replaying_broadcasts_converge() {
    let mut server = server_with(&["desert"]);
    let mut a = Peer { id: 1, room: None };
    let mut b = Peer { id: 2, room: None };
    join(&mut server, &mut a, "desert");
    join(&mut server, &mut b, "desert");
    ensure_loaded(&mut server, &a, sample_doc(4, 3));
    let mut client = sample_doc(4, 3);
    let reqs = vec![
        (1, RoomRequest::TileChange(TileChange { group: 0, layer: 0, x: 3, y: 2, id: 1 })),
        (2, RoomRequest::GroupChange(GroupChange { group: 1, change: OneGroupChange::OffX(-32) })),
        (1, RoomRequest::LayerChange(LayerChange { group: 0, layer: 1, change: OneLayerChange::Width(6) })),
        (2, RoomRequest::DeleteGroup(DeleteGroup { group: 0 })),
        (1, RoomRequest::CreateGroup(CreateGroup { name: "fg".to_string() })),
        (2, RoomRequest::CreateLayer(CreateLayer { group: 2, kind: LayerKind::Tiles, name: "new".to_string() })),
        (1, RoomRequest::LayerChange(LayerChange {
            group: 1,
            layer: 1,
            change: OneLayerChange::Order(LayerOrderChange { group: 2, layer: 0 }),
        })),
        (2, RoomRequest::GroupChange(GroupChange { group: 2, change: OneGroupChange::Order(0) })),
    ];
    for (who, req) in reqs {
        let peer = if who == 1 { &mut a } else { &mut b };
        if let Ok(out) = room_request(&mut server, peer, req) {
            for o in out {
                if let Outcome::Send { msg: Response::Room(resp), to } = o {
                    assert_eq!(to, vec![1u64, 2]);
                    let r = match resp {
                        RoomResponse::TileChange(c) => client.set_tile(&c),
                        RoomResponse::GroupChange(c) => client.edit_group(&c),
                        RoomResponse::LayerChange(c) => client.edit_layer(&c),
                        RoomResponse::CreateGroup(c) => {
                            client.create_group(&c);
                            Ok(())
                        }
                        RoomResponse::DeleteGroup(c) => client.delete_group(&c),
                        RoomResponse::CreateLayer(c) => client.create_layer(&c),
                        RoomResponse::DeleteLayer(c) => client.delete_layer(&c),
                        RoomResponse::Users(_) => Ok(()),
                    };
                    assert_eq!(r, Ok(()));
                }
            }
        }
    }
    let server_doc = fetch(&mut server, &mut a);
    assert_eq!(server_doc, client);
    assert_eq!(server_doc.groups.len(), 3);
    assert_eq!(server_doc.groups[0].name, "fg");
    assert_eq!(server_doc.groups[0].layers.len(), 2);
}

#[test]
fn save_copy_and_non_edits() {
    let mut room = Room::new("r".to_string(), "p".to_string());
    room.add_peer(1);
    assert_eq!(room.save_copy("backup.map".to_string()).unwrap_err(), ServerError::ResourceUnavailable);
    room.load(Some(sample_doc(2, 2))).unwrap();
    let (path, doc) = room.save_copy("backup.map".to_string()).unwrap();
    assert_eq!(path, "backup.map");
    assert_eq!(doc, sample_doc(2, 2));
    assert_eq!(room.apply(&RoomRequest::Save), Err(ServerError::InvalidEdit));
    assert_eq!(room.apply(&RoomRequest::FetchMap), Err(ServerError::InvalidEdit));
    let c = TileChange { group: 0, layer: 0, x: 1, y: 0, id: 2 };
    assert_eq!(room.apply(&RoomRequest::TileChange(c)), Ok(()));
    assert_eq!(room.send_map().unwrap().groups[0].layers[0].grid.as_ref().unwrap().rows[0][1].id, 2);
}

#[test]
fn edit_on_empty_room_document_is_unavailable() {
    let mut room = Room::new("r".to_string(), "p".to_string());
    let c = TileChange { group: 0, layer: 0, x: 0, y: 0, id: 1 };
    assert_eq!(room.set_tile(&c), Err(ServerError::ResourceUnavailable));
    assert_eq!(room.delete_layer(&DeleteLayer { group: 0, layer: 0 }), Err(ServerError::ResourceUnavailable));
}
