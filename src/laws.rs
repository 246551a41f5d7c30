//! Properties that hold across calls: convergence of the clients' copies,
//! protection of the physics layer and group, resize round trips, the
//! load/unload life of a room's document, and broadcast fan-out.
use vstd::prelude::*;

use crate::document::{
    grid_with_height, grid_with_width, valid_dimension, DocView, GridView, LayerKind,
    MAX_DIMENSION,
};
use crate::edit::{
    is_edit, layer_change_applied, layer_change_valid, layer_with_width, mirror,
    physics_layers_with_width, request_applied, request_valid, response_applied,
};
use crate::protocol::{LayerChange, OneLayerChange, RoomRequest, RoomResponse};
use crate::room::{lazy_after_load, peers_with, room_after_leave, RoomView};
use crate::server::{Peer, ServerView};

verus! {

/// The server's document after it has handled `reqs` in order: each valid
/// edit is applied, each invalid one is dropped.
pub open spec fn server_replay(d: DocView, reqs: Seq<RoomRequest>) -> DocView
    decreases reqs.len(),
{
    if reqs.len() == 0 {
        d
    } else {
        let next = if request_valid(d, reqs[0]) { request_applied(d, reqs[0]) } else { d };
        server_replay(next, reqs.drop_first())
    }
}

/// The messages the server broadcasts while handling `reqs` in order: one
/// mirror of each accepted edit.
pub open spec fn broadcasts(d: DocView, reqs: Seq<RoomRequest>) -> Seq<RoomResponse>
    decreases reqs.len(),
{
    if reqs.len() == 0 {
        Seq::empty()
    } else if request_valid(d, reqs[0]) {
        seq![mirror(reqs[0])] + broadcasts(request_applied(d, reqs[0]), reqs.drop_first())
    } else {
        broadcasts(d, reqs.drop_first())
    }
}

/// A client's copy after it applies the broadcast messages `resps` in order.
pub open spec fn client_replay(d: DocView, resps: Seq<RoomResponse>) -> DocView
    decreases resps.len(),
{
    if resps.len() == 0 {
        d
    } else {
        client_replay(response_applied(d, resps[0]), resps.drop_first())
    }
}

/// A client applying a broadcast edit does what the server did with it.
pub proof fn lemma_mirror_applies(d: DocView, req: RoomRequest)
    requires
        is_edit(req),
    ensures
        response_applied(d, mirror(req)) == request_applied(d, req),
{
}

proof fn lemma_client_replay_append(d: DocView, a: Seq<RoomResponse>, b: Seq<RoomResponse>)
    ensures
        client_replay(d, a + b) == client_replay(client_replay(d, a), b),
    decreases a.len(),
{
    if a.len() == 0 {
        assert(a + b =~= b);
    } else {
        assert((a + b).drop_first() =~= a.drop_first() + b);
        lemma_client_replay_append(response_applied(d, a[0]), a.drop_first(), b);
    }
}

/// Convergence: a client that starts from the server's document and
/// applies, in order, every message the server broadcast while handling a
/// sequence of edits ends with the server's document.
pub proof fn lemma_convergence(d: DocView, reqs: Seq<RoomRequest>)
    requires
        forall|i: int| 0 <= i < reqs.len() ==> is_edit(#[trigger] reqs[i]),
    ensures
        client_replay(d, broadcasts(d, reqs)) == server_replay(d, reqs),
    decreases reqs.len(),
{
    if reqs.len() > 0 {
        let rest = reqs.drop_first();
        assert forall|i: int| 0 <= i < rest.len() implies is_edit(#[trigger] rest[i]) by {
            assert(rest[i] == reqs[i + 1]);
        }
        assert(is_edit(reqs[0]));
        if request_valid(d, reqs[0]) {
            let next = request_applied(d, reqs[0]);
            lemma_convergence(next, rest);
            lemma_client_replay_append(d, seq![mirror(reqs[0])], broadcasts(next, rest));
            lemma_mirror_applies(d, reqs[0]);
            let m = seq![mirror(reqs[0])];
            assert(m.drop_first() =~= Seq::<RoomResponse>::empty());
            assert(client_replay(d, m) == client_replay(response_applied(d, m[0]), m.drop_first()));
            assert(client_replay(response_applied(d, m[0]), Seq::<RoomResponse>::empty()) == response_applied(d, m[0]));
            assert(broadcasts(d, reqs) == m + broadcasts(next, rest));
            assert(server_replay(d, reqs) == server_replay(next, rest));
        } else {
            lemma_convergence(d, rest);
            assert(broadcasts(d, reqs) == broadcasts(d, rest));
            assert(server_replay(d, reqs) == server_replay(d, rest));
        }
    }
}

/// Whether `req` deletes or renames the physics group, or deletes or
/// renames a game layer.
pub open spec fn targets_physics(d: DocView, req: RoomRequest) -> bool {
    match req {
        RoomRequest::DeleteGroup(c) => 0 <= c.group < d.groups.len() && d.groups[c.group as int].is_physics_group(),
        RoomRequest::GroupChange(c) => c.change is Name && 0 <= c.group < d.groups.len()
            && d.groups[c.group as int].is_physics_group(),
        RoomRequest::DeleteLayer(c) => 0 <= c.group < d.groups.len() && 0 <= c.layer < d.groups[c.group as int].layers.len()
            && d.groups[c.group as int].layers[c.layer as int].kind == LayerKind::Game,
        RoomRequest::LayerChange(c) => c.change is Name && 0 <= c.group < d.groups.len()
            && 0 <= c.layer < d.groups[c.group as int].layers.len()
            && d.groups[c.group as int].layers[c.layer as int].kind == LayerKind::Game,
        _ => false,
    }
}

/// Deleting or renaming the physics group or the game layer is never a
/// valid edit, so it fails with `InvalidEdit` and changes nothing.
pub proof fn lemma_physics_protected(d: DocView, req: RoomRequest)
    requires
        targets_physics(d, req),
    ensures
        !request_valid(d, req),
{
}

/// A grid widened to `width` and narrowed back is the grid it was, and
/// every cell left of both widths keeps its identifier.
pub proof fn lemma_width_round_trip(g: GridView, width: nat)
    requires
        g.wf(),
        g.width <= width <= MAX_DIMENSION,
    ensures
        grid_with_width(g, width).width == width,
        grid_with_width(g, width).rows.len() == g.rows.len(),
        forall|x: int, y: int| 0 <= x < g.width && 0 <= y < g.rows.len()
            ==> #[trigger] grid_with_width(g, width).rows[y][x] == g.rows[y][x],
        grid_with_width(grid_with_width(g, width), g.width) == g,
{
    let back = grid_with_width(grid_with_width(g, width), g.width);
    assert forall|y: int| 0 <= y < g.rows.len() implies #[trigger] back.rows[y] == g.rows[y] by {
        assert(back.rows[y] =~= g.rows[y]);
    }
    assert(back.rows =~= g.rows);
}

/// Widening a physics-class layer widens every physics-class layer of its
/// group; narrowing it back to the width they all had restores the
/// document, tiles included.
pub proof fn lemma_physics_width_round_trip(d: DocView, g: u32, l: u32, w0: u32, w1: u32)
    requires
        g < d.groups.len(),
        l < d.groups[g as int].layers.len(),
        d.groups[g as int].layers[l as int].kind.spec_is_physics_class(),
        forall|k: int| 0 <= k < d.groups[g as int].layers.len()
            && (#[trigger] d.groups[g as int].layers[k]).kind.spec_is_physics_class()
            ==> (d.groups[g as int].layers[k].grid matches Some(gr) && gr.wf() && gr.width == w0),
        valid_dimension(w0 as int),
        w0 <= w1 <= MAX_DIMENSION,
    ensures
        ({
            let grow = LayerChange { group: g, layer: l, change: OneLayerChange::Width(w1) };
            let shrink = LayerChange { group: g, layer: l, change: OneLayerChange::Width(w0) };
            let wide = layer_change_applied(d, grow);
            &&& layer_change_valid(d, grow)
            &&& layer_change_valid(wide, shrink)
            &&& layer_change_applied(wide, shrink) == d
        }),
{
    let grow = LayerChange { group: g, layer: l, change: OneLayerChange::Width(w1) };
    let shrink = LayerChange { group: g, layer: l, change: OneLayerChange::Width(w0) };
    let gv = d.groups[g as int];
    let wide = layer_change_applied(d, grow);
    let wide_layers = physics_layers_with_width(gv.layers, w1 as nat);
    assert(wide.groups[g as int].layers == wide_layers);
    assert(wide_layers[l as int].kind == gv.layers[l as int].kind);
    let back = physics_layers_with_width(wide_layers, w0 as nat);
    assert forall|k: int| 0 <= k < gv.layers.len() implies #[trigger] back[k] == gv.layers[k] by {
        let lv = gv.layers[k];
        if lv.kind.spec_is_physics_class() {
            let gr = lv.grid.unwrap();
            lemma_width_round_trip(gr, w1 as nat);
            assert(wide_layers[k] == layer_with_width(lv, w1 as nat));
            assert(back[k] == layer_with_width(wide_layers[k], w0 as nat));
        }
    }
    assert(back =~= gv.layers);
    let restored = layer_change_applied(wide, shrink);
    assert(restored.groups =~= d.groups);
}

/// A grid heightened to `height` and cut back is the grid it was, and
/// every cell above both heights keeps its identifier.
pub proof fn lemma_height_round_trip(g: GridView, height: nat)
    requires
        g.wf(),
        g.rows.len() <= height <= MAX_DIMENSION,
    ensures
        grid_with_height(g, height).rows.len() == height,
        grid_with_height(g, height).width == g.width,
        forall|x: int, y: int| 0 <= x < g.width && 0 <= y < g.rows.len()
            ==> #[trigger] grid_with_height(g, height).rows[y][x] == g.rows[y][x],
        grid_with_height(grid_with_height(g, height), g.rows.len()) == g,
{
    let back = grid_with_height(grid_with_height(g, height), g.rows.len());
    assert(back.rows =~= g.rows);
}

/// The life of a room's document: a peer joining an empty room loads
/// nothing; the first access loads the document once; later accesses
/// while the peer stays do not load it again; and when the last peer
/// leaves, it is dropped from memory once.
pub proof fn lemma_lazy_lifecycle(s: RoomView, p: u64, first: DocView, later: Option<DocView>)
    requires
        s.wf(),
        s.peers.len() == 0,
        s.map.doc is None,
    ensures
        ({
            let joined = RoomView { peers: peers_with(s.peers, p), ..s };
            let loaded = RoomView { map: lazy_after_load(joined.map, Some(first)), ..joined };
            let again = RoomView { map: lazy_after_load(loaded.map, later), ..loaded };
            let left = room_after_leave(again, p);
            &&& joined.map == s.map
            &&& loaded.map.doc == Some(first)
            &&& loaded.map.loads == s.map.loads + 1
            &&& again.map == loaded.map
            &&& left.peers.len() == 0
            &&& left.map.doc is None
            &&& left.map.unloads == s.map.unloads + 1
            &&& left.map.loads == s.map.loads + 1
        }),
{
    let joined = RoomView { peers: peers_with(s.peers, p), ..s };
    assert(!s.peers.contains(p));
    assert(joined.peers =~= seq![p]);
    assert(joined.peers[0] == p);
    let again = RoomView {
        map: lazy_after_load(lazy_after_load(joined.map, Some(first)), later),
        ..joined
    };
    again.peers.index_of_first_ensures(p);
}

/// A peer that has joined a room stays among its peers, and so among the
/// recipients of its broadcasts, through any other peer joining or leaving.
pub proof fn lemma_peer_stays(s: RoomView, a: u64, q: u64)
    requires
        s.wf(),
        s.peers.contains(a),
        q != a,
    ensures
        peers_with(s.peers, a).contains(a),
        peers_with(s.peers, q).contains(a),
        room_after_leave(s, q).peers.contains(a),
{
    let i = choose|i: int| 0 <= i < s.peers.len() && s.peers[i] == a;
    if !s.peers.contains(q) {
        assert(s.peers.push(q)[i] == a);
    }
    s.peers.index_of_first_ensures(q);
    match s.peers.index_of_first(q) {
        Some(j) => {
            let t = s.peers.remove(j);
            if i < j {
                assert(t[i] == a);
            } else {
                assert(i != j);
                assert(t[i - 1] == a);
            }
        },
        None => {},
    }
}

/// Broadcast fan-out: the sender is a peer of its own room, and no peer of
/// that room, the recipients of its broadcasts, is a peer of another room.
pub proof fn lemma_fan_out(s: ServerView, p: Peer, other: int)
    requires
        s.wf(),
        s.holds(p),
        p.room is Some,
        0 <= other < s.rooms.len(),
        other != p.room.unwrap(),
    ensures
        s.rooms[p.room.unwrap() as int].peers.contains(p.id),
        forall|q: u64| s.rooms[p.room.unwrap() as int].peers.contains(q) ==> !#[trigger] s.rooms[other].peers.contains(q),
{
    let i = p.room.unwrap() as int;
    assert(s.rooms[i].peers.contains(p.id));
    assert forall|q: u64| s.rooms[i].peers.contains(q) implies !#[trigger] s.rooms[other].peers.contains(q) by {
        assert(s.rooms[i].peers.contains(q) ==> !s.rooms[other].peers.contains(q));
    }
}

} // verus!
