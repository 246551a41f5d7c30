//! The edits a room applies to its document, each checked before anything
//! changes: an edit either applies whole or fails with `InvalidEdit` and
//! leaves the document as it was.
use vstd::prelude::*;

use crate::document::{
    empty_grid, grid_with_height, grid_with_tile, grid_with_width, tile_in_grid, valid_dimension,
    Clip, Color, DocView, Document, Grid, GridView, Group, GroupView, Layer, LayerKind, LayerView, MAX_DIMENSION,
};
use crate::error::ServerError;
use crate::protocol::{
    CreateGroup, CreateLayer, DeleteGroup, DeleteLayer, GroupChange, LayerChange,
    OneGroupChange, OneLayerChange, RoomRequest, RoomResponse, TileChange,
};

verus! {

/// The document with group `g` replaced.
pub open spec fn group_with(d: DocView, g: int, gv: GroupView) -> DocView {
    DocView { groups: d.groups.update(g, gv) }
}

/// The document with layer `l` of group `g` replaced.
pub open spec fn layer_with(d: DocView, g: int, l: int, lv: LayerView) -> DocView {
    group_with(d, g, GroupView { layers: d.groups[g].layers.update(l, lv), ..d.groups[g] })
}

/// Whether a group change may be applied to `d`.
pub open spec fn group_change_valid(d: DocView, c: GroupChange) -> bool {
    &&& c.group < d.groups.len()
    &&& match c.change {
        OneGroupChange::Order(n) => n < d.groups.len(),
        OneGroupChange::Name(_) => !d.groups[c.group as int].is_physics_group(),
        _ => true,
    }
}

/// The document after a valid group change.
pub open spec fn group_change_applied(d: DocView, c: GroupChange) -> DocView {
    let g = c.group as int;
    let gv = d.groups[g];
    match c.change {
        OneGroupChange::Order(n) => DocView { groups: d.groups.remove(g).insert(n as int, gv) },
        OneGroupChange::OffX(v) => group_with(d, g, GroupView { offset_x: v, ..gv }),
        OneGroupChange::OffY(v) => group_with(d, g, GroupView { offset_y: v, ..gv }),
        OneGroupChange::ParaX(v) => group_with(d, g, GroupView { parallax_x: v, ..gv }),
        OneGroupChange::ParaY(v) => group_with(d, g, GroupView { parallax_y: v, ..gv }),
        OneGroupChange::Name(s) => group_with(d, g, GroupView { name: s@, ..gv }),
    }
}

/// The empty group that `create_group` appends.
pub open spec fn new_group_view(name: Seq<char>) -> GroupView {
    GroupView {
        name,
        offset_x: 0,
        offset_y: 0,
        parallax_x: 100,
        parallax_y: 100,
        clip: Clip { enabled: false, x: 0, y: 0, w: 0, h: 0 },
        layers: Seq::empty(),
    }
}

/// Whether group `g` may be deleted from `d`.
pub open spec fn delete_group_valid(d: DocView, g: int) -> bool {
    0 <= g < d.groups.len() && !d.groups[g].is_physics_group()
}

impl Group {
    /// Whether the group holds a physics-class layer.
    pub fn is_physics_group(&self) -> (r: bool)
        ensures
            r == self@.is_physics_group(),
    {
        let mut i: usize = 0;
        while i < self.layers.len()
            invariant
                i <= self.layers@.len(),
                forall|k: int| 0 <= k < i ==> !(#[trigger] self@.layers[k]).kind.spec_is_physics_class(),
            decreases self.layers@.len() - i,
        {
            if self.layers[i].kind.is_physics_class() {
                assert(self@.layers[i as int].kind.spec_is_physics_class());
                return true;
            }
            i = i + 1;
        }
        false
    }
}

impl Document {
    /// Appends an empty group named `name`.
    pub fn create_group(&mut self, create_group: &CreateGroup)
        ensures
            final(self)@ == (DocView { groups: old(self)@.groups.push(new_group_view(create_group.name@)) }),
    {
        let group = Group {
            name: create_group.name.clone(),
            offset_x: 0,
            offset_y: 0,
            parallax_x: 100,
            parallax_y: 100,
            clip: Clip { enabled: false, x: 0, y: 0, w: 0, h: 0 },
            layers: Vec::new(),
        };
        let ghost before = self@;
        self.groups.push(group);
        assert(group@.layers =~= Seq::<LayerView>::empty());
        assert(self@.groups =~= before.groups.push(new_group_view(create_group.name@)));
    }

    /// Moves group `group` to index `new_group`.
    pub fn reorder_group(&mut self, group: u32, new_group: u32) -> (r: Result<(), ServerError>)
        ensures
            r is Ok <==> group < old(self)@.groups.len() && new_group < old(self)@.groups.len(),
            r is Ok ==> final(self)@ == (DocView {
                groups: old(self)@.groups.remove(group as int).insert(
                    new_group as int,
                    old(self)@.groups[group as int],
                ),
            }),
            r matches Err(e) ==> e == ServerError::InvalidEdit && final(self)@ == old(self)@,
    {
        if group as usize >= self.groups.len() || new_group as usize >= self.groups.len() {
            return Err(ServerError::InvalidEdit);
        }
        let ghost before = self@;
        let g = self.groups.remove(group as usize);
        self.groups.insert(new_group as usize, g);
        assert(self@.groups =~= before.groups.remove(group as int).insert(
            new_group as int,
            before.groups[group as int],
        ));
        Ok(())
    }

    /// Applies one change to the properties of a group.
    pub fn edit_group(&mut self, edit_group: &GroupChange) -> (r: Result<(), ServerError>)
        ensures
            r is Ok <==> group_change_valid(old(self)@, *edit_group),
            r is Ok ==> final(self)@ == group_change_applied(old(self)@, *edit_group),
            r matches Err(e) ==> e == ServerError::InvalidEdit && final(self)@ == old(self)@,
    {
        let g = edit_group.group as usize;
        if g >= self.groups.len() {
            return Err(ServerError::InvalidEdit);
        }
        let ghost before = self@;
        match &edit_group.change {
            OneGroupChange::Order(n) => {
                return self.reorder_group(edit_group.group, *n);
            },
            OneGroupChange::OffX(v) => {
                self.groups[g].offset_x = *v;
            },
            OneGroupChange::OffY(v) => {
                self.groups[g].offset_y = *v;
            },
            OneGroupChange::ParaX(v) => {
                self.groups[g].parallax_x = *v;
            },
            OneGroupChange::ParaY(v) => {
                self.groups[g].parallax_y = *v;
            },
            OneGroupChange::Name(name) => {
                if self.groups[g].is_physics_group() {
                    return Err(ServerError::InvalidEdit);
                }
                self.groups[g].name = name.clone();
            },
        }
        assert(self@.groups =~= group_change_applied(before, *edit_group).groups);
        Ok(())
    }

    /// Removes group `group`, unless it is the physics group.
    pub fn delete_group(&mut self, delete_group: &DeleteGroup) -> (r: Result<(), ServerError>)
        ensures
            r is Ok <==> delete_group_valid(old(self)@, delete_group.group as int),
            r is Ok ==> final(self)@ == (DocView {
                groups: old(self)@.groups.remove(delete_group.group as int),
            }),
            r matches Err(e) ==> e == ServerError::InvalidEdit && final(self)@ == old(self)@,
    {
        let g = delete_group.group as usize;
        if g >= self.groups.len() || self.groups[g].is_physics_group() {
            return Err(ServerError::InvalidEdit);
        }
        let ghost before = self@;
        self.groups.remove(g);
        assert(self@.groups =~= before.groups.remove(g as int));
        Ok(())
    }
}

/// The layer with its grid resized to `width` columns, if it has a grid.
pub open spec fn layer_with_width(lv: LayerView, width: nat) -> LayerView {
    match lv.grid {
        Some(g) => LayerView { grid: Some(grid_with_width(g, width)), ..lv },
        None => lv,
    }
}

/// The layer with its grid resized to `height` rows, if it has a grid.
pub open spec fn layer_with_height(lv: LayerView, height: nat) -> LayerView {
    match lv.grid {
        Some(g) => LayerView { grid: Some(grid_with_height(g, height)), ..lv },
        None => lv,
    }
}

/// Sets the width of a layer's grid, cutting or padding at the right edge.
/// Fails on a layer without a grid and on a width outside `1..=10000`.
pub fn set_layer_width(layer: &mut Layer, width: usize) -> (r: Result<(), ServerError>)
    ensures
        r is Ok <==> old(layer)@.grid is Some && valid_dimension(width as int),
        r is Ok ==> final(layer)@ == layer_with_width(old(layer)@, width as nat),
        r matches Err(e) ==> e == ServerError::InvalidEdit && final(layer)@ == old(layer)@,
{
    if width == 0 || width > MAX_DIMENSION {
        return Err(ServerError::InvalidEdit);
    }
    match &mut layer.grid {
        Some(g) => {
            g.set_width(width);
            Ok(())
        },
        None => Err(ServerError::InvalidEdit),
    }
}

/// Sets the height of a layer's grid, cutting or padding at the bottom edge.
/// Fails on a layer without a grid and on a height outside `1..=10000`.
pub fn set_layer_height(layer: &mut Layer, height: usize) -> (r: Result<(), ServerError>)
    ensures
        r is Ok <==> old(layer)@.grid is Some && valid_dimension(height as int),
        r is Ok ==> final(layer)@ == layer_with_height(old(layer)@, height as nat),
        r matches Err(e) ==> e == ServerError::InvalidEdit && final(layer)@ == old(layer)@,
{
    if height == 0 || height > MAX_DIMENSION {
        return Err(ServerError::InvalidEdit);
    }
    match &mut layer.grid {
        Some(g) => {
            g.set_height(height);
            Ok(())
        },
        None => Err(ServerError::InvalidEdit),
    }
}

/// Whether layer `l` of group `g` is a game layer.
pub open spec fn is_game_at(d: DocView, g: int, l: int) -> bool {
    &&& 0 <= g < d.groups.len()
    &&& 0 <= l < d.groups[g].layers.len()
    &&& d.groups[g].layers[l].kind == LayerKind::Game
}

/// Whether layer `l` of group `g` is the game layer: the first one in
/// document order.
pub open spec fn is_first_game_layer(d: DocView, g: int, l: int) -> bool {
    &&& is_game_at(d, g, l)
    &&& forall|g2: int, l2: int| #[trigger] is_game_at(d, g2, l2) ==> g < g2 || (g == g2 && l <= l2)
}

pub open spec fn has_game_layer(d: DocView) -> bool {
    exists|g: int, l: int| is_first_game_layer(d, g, l)
}

/// Where the game layer stands: a group index and a layer index.
pub open spec fn game_layer_pos(d: DocView) -> (int, int) {
    choose|p: (int, int)| is_first_game_layer(d, p.0, p.1)
}

/// The grid of the game layer.
pub open spec fn game_grid(d: DocView) -> Option<GridView> {
    let (g, l) = game_layer_pos(d);
    d.groups[g].layers[l].grid
}

/// Whether a tile change can be applied: there is a game layer and the
/// coordinate is a cell of its grid.
pub open spec fn tile_change_valid(d: DocView, c: TileChange) -> bool {
    &&& has_game_layer(d)
    &&& game_grid(d) matches Some(gr) && tile_in_grid(gr, c.x as int, c.y as int)
}

/// The document after a valid tile change: one cell of the game layer set.
pub open spec fn tile_change_applied(d: DocView, c: TileChange) -> DocView {
    let (g, l) = game_layer_pos(d);
    let lv = d.groups[g].layers[l];
    layer_with(
        d,
        g,
        l,
        LayerView { grid: Some(grid_with_tile(lv.grid.unwrap(), c.x as int, c.y as int, c.id)), ..lv },
    )
}

/// There is one game layer in document order that comes first.
pub proof fn lemma_first_game_layer_unique(d: DocView, g: int, l: int)
    requires
        is_first_game_layer(d, g, l),
    ensures
        has_game_layer(d),
        game_layer_pos(d) == (g, l),
{
    let w = (g, l);
    assert(is_first_game_layer(d, w.0, w.1));
    let p = game_layer_pos(d);
    assert(is_first_game_layer(d, p.0, p.1));
    assert(is_game_at(d, p.0, p.1));
    assert(is_game_at(d, g, l));
}

/// The white color of a new tiles layer.
pub open spec fn white() -> Color {
    Color { r: 255, g: 255, b: 255, a: 255 }
}

/// Whether a layer of this kind may be created in `d`.
pub open spec fn create_layer_valid(d: DocView, c: CreateLayer) -> bool {
    &&& c.group < d.groups.len()
    &&& match c.kind {
        LayerKind::Tiles => has_game_layer(d) && game_grid(d) is Some,
        LayerKind::Quads => true,
        _ => false,
    }
}

/// The layer that a valid `create_layer` appends: a tiles layer as large as
/// the game layer, or an empty quads layer.
pub open spec fn created_layer(d: DocView, c: CreateLayer) -> LayerView {
    match c.kind {
        LayerKind::Tiles => {
            let gr = game_grid(d).unwrap();
            LayerView {
                kind: LayerKind::Tiles,
                name: c.name@,
                color: white(),
                grid: Some(empty_grid(gr.width, gr.rows.len())),
                extra: None,
            }
        },
        _ => LayerView { kind: LayerKind::Quads, name: c.name@, color: white(), grid: None, extra: None },
    }
}

/// Whether layer `l` of group `g` exists and may be moved to index `nl` of group `ng`.
pub open spec fn reorder_layer_valid(d: DocView, g: int, l: int, ng: int, nl: int) -> bool {
    &&& 0 <= g < d.groups.len()
    &&& 0 <= l < d.groups[g].layers.len()
    &&& if g == ng {
        0 <= nl < d.groups[g].layers.len()
    } else {
        &&& 0 <= ng < d.groups.len()
        &&& 0 <= nl <= d.groups[ng].layers.len()
        &&& d.groups[g].layers[l].kind != LayerKind::Game
    }
}

/// The document after a valid layer move.
pub open spec fn reorder_layer_applied(d: DocView, g: int, l: int, ng: int, nl: int) -> DocView {
    let lv = d.groups[g].layers[l];
    let removed = group_with(d, g, GroupView { layers: d.groups[g].layers.remove(l), ..d.groups[g] });
    group_with(removed, ng, GroupView { layers: removed.groups[ng].layers.insert(nl, lv), ..removed.groups[ng] })
}

/// The layers of a group with every physics-class grid resized to `width` columns.
pub open spec fn physics_layers_with_width(layers: Seq<LayerView>, width: nat) -> Seq<LayerView> {
    layers.map_values(
        |lv: LayerView| if lv.kind.spec_is_physics_class() { layer_with_width(lv, width) } else { lv },
    )
}

/// The layers of a group with every physics-class grid resized to `height` rows.
pub open spec fn physics_layers_with_height(layers: Seq<LayerView>, height: nat) -> Seq<LayerView> {
    layers.map_values(
        |lv: LayerView| if lv.kind.spec_is_physics_class() { layer_with_height(lv, height) } else { lv },
    )
}

/// Whether a layer change may be applied to `d`.
pub open spec fn layer_change_valid(d: DocView, c: LayerChange) -> bool {
    let g = c.group as int;
    let l = c.layer as int;
    &&& g < d.groups.len()
    &&& l < d.groups[g].layers.len()
    &&& {
        let lv = d.groups[g].layers[l];
        match c.change {
            OneLayerChange::Order(o) => reorder_layer_valid(d, g, l, o.group as int, o.layer as int),
            OneLayerChange::Name(_) => lv.kind.spec_has_name(),
            OneLayerChange::Color(_) => lv.kind.spec_has_color(),
            OneLayerChange::Width(w) => valid_dimension(w as int) && (lv.kind.spec_is_physics_class()
                || (lv.kind == LayerKind::Tiles && lv.grid is Some)),
            OneLayerChange::Height(h) => valid_dimension(h as int) && (lv.kind.spec_is_physics_class()
                || (lv.kind == LayerKind::Tiles && lv.grid is Some)),
        }
    }
}

/// The document after a valid layer change. A resize of a physics-class
/// layer resizes every physics-class layer of its group alike.
pub open spec fn layer_change_applied(d: DocView, c: LayerChange) -> DocView {
    let g = c.group as int;
    let l = c.layer as int;
    let gv = d.groups[g];
    let lv = gv.layers[l];
    match c.change {
        OneLayerChange::Order(o) => reorder_layer_applied(d, g, l, o.group as int, o.layer as int),
        OneLayerChange::Name(s) => layer_with(d, g, l, LayerView { name: s@, ..lv }),
        OneLayerChange::Color(col) => layer_with(d, g, l, LayerView { color: col, ..lv }),
        OneLayerChange::Width(w) => if lv.kind.spec_is_physics_class() {
            group_with(d, g, GroupView {
                layers: physics_layers_with_width(gv.layers, w as nat),
                ..gv
            })
        } else {
            layer_with(d, g, l, layer_with_width(lv, w as nat))
        },
        OneLayerChange::Height(h) => if lv.kind.spec_is_physics_class() {
            group_with(d, g, GroupView {
                layers: physics_layers_with_height(gv.layers, h as nat),
                ..gv
            })
        } else {
            layer_with(d, g, l, layer_with_height(lv, h as nat))
        },
    }
}

/// Whether layer `l` of group `g` exists and may be deleted.
pub open spec fn delete_layer_valid(d: DocView, g: int, l: int) -> bool {
    &&& 0 <= g < d.groups.len()
    &&& 0 <= l < d.groups[g].layers.len()
    &&& d.groups[g].layers[l].kind != LayerKind::Game
}

impl Document {
    /// Finds the game layer: the first layer of kind `Game` in document order.
    pub fn find_game_layer(&self) -> (r: Option<(usize, usize)>)
        ensures
            r matches Some(p) ==> is_first_game_layer(self@, p.0 as int, p.1 as int),
            r is None ==> !has_game_layer(self@),
    {
        let mut g: usize = 0;
        while g < self.groups.len()
            invariant
                g <= self.groups@.len(),
                forall|g2: int, l2: int| 0 <= g2 < g ==> !#[trigger] is_game_at(self@, g2, l2),
            decreases self.groups@.len() - g,
        {
            let mut l: usize = 0;
            while l < self.groups[g].layers.len()
                invariant
                    g < self.groups@.len(),
                    l <= self.groups@[g as int].layers@.len(),
                    forall|g2: int, l2: int| 0 <= g2 < g ==> !#[trigger] is_game_at(self@, g2, l2),
                    forall|l2: int| 0 <= l2 < l ==> !#[trigger] is_game_at(self@, g as int, l2),
                decreases self.groups@[g as int].layers@.len() - l,
            {
                if self.groups[g].layers[l].kind == LayerKind::Game {
                    assert(is_game_at(self@, g as int, l as int));
                    return Some((g, l));
                }
                l = l + 1;
            }
            g = g + 1;
        }
        None
    }

    /// Sets one cell of the game layer. The group and layer the change names
    /// are not consulted: tile changes always go to the game layer.
    pub fn set_tile(&mut self, edit_tile: &TileChange) -> (r: Result<(), ServerError>)
        ensures
            r is Ok <==> tile_change_valid(old(self)@, *edit_tile),
            r is Ok ==> final(self)@ == tile_change_applied(old(self)@, *edit_tile),
            r matches Err(e) ==> e == ServerError::InvalidEdit && final(self)@ == old(self)@,
    {
        let (g, l) = match self.find_game_layer() {
            Some(p) => p,
            None => return Err(ServerError::InvalidEdit),
        };
        proof {
            lemma_first_game_layer_unique(self@, g as int, l as int);
        }
        let ghost before = self@;
        let x = edit_tile.x as usize;
        let y = edit_tile.y as usize;
        let inside = match &self.groups[g].layers[l].grid {
            Some(grid) => grid.contains(x, y),
            None => false,
        };
        if !inside {
            return Err(ServerError::InvalidEdit);
        }
        match &mut self.groups[g].layers[l].grid {
            Some(grid) => grid.set_tile(x, y, edit_tile.id),
            None => {},
        }
        assert(self@.groups[g as int].layers =~= tile_change_applied(before, *edit_tile).groups[g as int].layers);
        assert(self@.groups =~= tile_change_applied(before, *edit_tile).groups);
        Ok(())
    }

    /// Appends a new tiles layer, as large as the game layer, or a new quads
    /// layer to a group. Other kinds are refused.
    pub fn create_layer(&mut self, create_layer: &CreateLayer) -> (r: Result<(), ServerError>)
        ensures
            r is Ok <==> create_layer_valid(old(self)@, *create_layer),
            r is Ok ==> final(self)@ == layer_with_all(
                old(self)@,
                create_layer.group as int,
                old(self)@.groups[create_layer.group as int].layers.push(created_layer(old(self)@, *create_layer)),
            ),
            r matches Err(e) ==> e == ServerError::InvalidEdit && final(self)@ == old(self)@,
    {
        let g = create_layer.group as usize;
        if g >= self.groups.len() {
            return Err(ServerError::InvalidEdit);
        }
        let ghost before = self@;
        let white = Color { r: 255, g: 255, b: 255, a: 255 };
        let layer = match create_layer.kind {
            LayerKind::Tiles => {
                let (pg, pl) = match self.find_game_layer() {
                    Some(p) => p,
                    None => return Err(ServerError::InvalidEdit),
                };
                proof {
                    lemma_first_game_layer_unique(self@, pg as int, pl as int);
                }
                let grid = match &self.groups[pg].layers[pl].grid {
                    Some(gr) => Grid::new(gr.width, gr.height()),
                    None => return Err(ServerError::InvalidEdit),
                };
                Layer { kind: LayerKind::Tiles, name: create_layer.name.clone(), color: white, grid: Some(grid), extra: None }
            },
            LayerKind::Quads => {
                Layer { kind: LayerKind::Quads, name: create_layer.name.clone(), color: white, grid: None, extra: None }
            },
            _ => return Err(ServerError::InvalidEdit),
        };
        assert(layer@ == created_layer(before, *create_layer));
        self.groups[g].layers.push(layer);
        assert(self@.groups[g as int].layers =~= before.groups[g as int].layers.push(created_layer(before, *create_layer)));
        assert(self@.groups =~= layer_with_all(
            before,
            g as int,
            before.groups[g as int].layers.push(created_layer(before, *create_layer)),
        ).groups);
        Ok(())
    }

    /// Removes a layer, unless it is a game layer.
    pub fn delete_layer(&mut self, delete_layer: &DeleteLayer) -> (r: Result<(), ServerError>)
        ensures
            r is Ok <==> delete_layer_valid(old(self)@, delete_layer.group as int, delete_layer.layer as int),
            r is Ok ==> final(self)@ == layer_with_all(
                old(self)@,
                delete_layer.group as int,
                old(self)@.groups[delete_layer.group as int].layers.remove(delete_layer.layer as int),
            ),
            r matches Err(e) ==> e == ServerError::InvalidEdit && final(self)@ == old(self)@,
    {
        let g = delete_layer.group as usize;
        let l = delete_layer.layer as usize;
        if g >= self.groups.len() || l >= self.groups[g].layers.len()
            || self.groups[g].layers[l].kind == LayerKind::Game {
            return Err(ServerError::InvalidEdit);
        }
        let ghost before = self@;
        self.groups[g].layers.remove(l);
        assert(self@.groups[g as int].layers =~= before.groups[g as int].layers.remove(l as int));
        assert(self@.groups =~= layer_with_all(
            before,
            g as int,
            before.groups[g as int].layers.remove(l as int),
        ).groups);
        Ok(())
    }

    /// Moves layer `layer` of group `group` to index `new_layer` of group
    /// `new_group`. A game layer never leaves its group.
    pub fn reorder_layer(&mut self, group: u32, layer: u32, new_group: u32, new_layer: u32) -> (r: Result<(), ServerError>)
        ensures
            r is Ok <==> reorder_layer_valid(old(self)@, group as int, layer as int, new_group as int, new_layer as int),
            r is Ok ==> final(self)@ == reorder_layer_applied(
                old(self)@,
                group as int,
                layer as int,
                new_group as int,
                new_layer as int,
            ),
            r matches Err(e) ==> e == ServerError::InvalidEdit && final(self)@ == old(self)@,
    {
        let g = group as usize;
        let l = layer as usize;
        let ng = new_group as usize;
        let nl = new_layer as usize;
        if g >= self.groups.len() || l >= self.groups[g].layers.len() {
            return Err(ServerError::InvalidEdit);
        }
        if g == ng {
            if nl >= self.groups[g].layers.len() {
                return Err(ServerError::InvalidEdit);
            }
        } else {
            if ng >= self.groups.len() || nl > self.groups[ng].layers.len()
                || self.groups[g].layers[l].kind == LayerKind::Game {
                return Err(ServerError::InvalidEdit);
            }
        }
        let ghost before = self@;
        let ghost removed = group_with(
            before,
            g as int,
            GroupView { layers: before.groups[g as int].layers.remove(l as int), ..before.groups[g as int] },
        );
        let moved = self.groups[g].layers.remove(l);
        assert(self@.groups[g as int].layers =~= removed.groups[g as int].layers);
        assert(self@.groups =~= removed.groups);
        self.groups[ng].layers.insert(nl, moved);
        assert(self@.groups[ng as int].layers =~= removed.groups[ng as int].layers.insert(nl as int, moved@));
        assert(self@.groups =~= reorder_layer_applied(before, g as int, l as int, ng as int, nl as int).groups);
        Ok(())
    }
}

impl Document {
    /// Resizes every physics-class layer of group `g` to `width` columns.
    fn set_physics_width(&mut self, g: usize, width: usize)
        requires
            g < old(self)@.groups.len(),
            valid_dimension(width as int),
        ensures
            final(self)@ == layer_with_all(
                old(self)@,
                g as int,
                physics_layers_with_width(old(self)@.groups[g as int].layers, width as nat),
            ),
    {
        let ghost before = self@;
        let mut i: usize = 0;
        assert(self@.groups =~= layer_with_all(before, g as int, self@.groups[g as int].layers).groups);
        while i < self.groups[g].layers.len()
            invariant
                g < self.groups@.len(),
                valid_dimension(width as int),
                self@.groups.len() == before.groups.len(),
                self@.groups[g as int].layers.len() == before.groups[g as int].layers.len(),
                i <= self@.groups[g as int].layers.len(),
                self@.groups =~= layer_with_all(before, g as int, self@.groups[g as int].layers).groups,
                forall|k: int| 0 <= k < i ==> #[trigger] self@.groups[g as int].layers[k]
                    == physics_layers_with_width(before.groups[g as int].layers, width as nat)[k],
                forall|k: int| i <= k < self@.groups[g as int].layers.len()
                    ==> #[trigger] self@.groups[g as int].layers[k] == before.groups[g as int].layers[k],
            decreases self.groups@[g as int].layers@.len() - i,
        {
            let ghost cur = self@;
            let ghost target = physics_layers_with_width(before.groups[g as int].layers, width as nat)[i as int];
            assert(target == if before.groups[g as int].layers[i as int].kind.spec_is_physics_class() {
                layer_with_width(before.groups[g as int].layers[i as int], width as nat)
            } else {
                before.groups[g as int].layers[i as int]
            });
            if self.groups[g].layers[i].kind.is_physics_class() {
                let r = set_layer_width(&mut self.groups[g].layers[i], width);
                assert(self.groups@[g as int].layers@[i as int]@ == layer_with_width(
                    cur.groups[g as int].layers[i as int],
                    width as nat,
                ));
            }
            assert(self@.groups =~= layer_with_all(cur, g as int, self@.groups[g as int].layers).groups);
            assert(self@.groups[g as int].layers[i as int] == target);
            assert(self@.groups[g as int].layers =~= cur.groups[g as int].layers.update(
                i as int,
                physics_layers_with_width(before.groups[g as int].layers, width as nat)[i as int],
            ));
            assert(self@.groups =~= layer_with_all(before, g as int, self@.groups[g as int].layers).groups);
            i = i + 1;
        }
        assert(self@.groups[g as int].layers =~= physics_layers_with_width(before.groups[g as int].layers, width as nat));
    }

    /// Resizes every physics-class layer of group `g` to `height` rows.
    fn set_physics_height(&mut self, g: usize, height: usize)
        requires
            g < old(self)@.groups.len(),
            valid_dimension(height as int),
        ensures
            final(self)@ == layer_with_all(
                old(self)@,
                g as int,
                physics_layers_with_height(old(self)@.groups[g as int].layers, height as nat),
            ),
    {
        let ghost before = self@;
        let mut i: usize = 0;
        assert(self@.groups =~= layer_with_all(before, g as int, self@.groups[g as int].layers).groups);
        while i < self.groups[g].layers.len()
            invariant
                g < self.groups@.len(),
                valid_dimension(height as int),
                self@.groups.len() == before.groups.len(),
                self@.groups[g as int].layers.len() == before.groups[g as int].layers.len(),
                i <= self@.groups[g as int].layers.len(),
                self@.groups =~= layer_with_all(before, g as int, self@.groups[g as int].layers).groups,
                forall|k: int| 0 <= k < i ==> #[trigger] self@.groups[g as int].layers[k]
                    == physics_layers_with_height(before.groups[g as int].layers, height as nat)[k],
                forall|k: int| i <= k < self@.groups[g as int].layers.len()
                    ==> #[trigger] self@.groups[g as int].layers[k] == before.groups[g as int].layers[k],
            decreases self.groups@[g as int].layers@.len() - i,
        {
            let ghost cur = self@;
            let ghost target = physics_layers_with_height(before.groups[g as int].layers, height as nat)[i as int];
            assert(target == if before.groups[g as int].layers[i as int].kind.spec_is_physics_class() {
                layer_with_height(before.groups[g as int].layers[i as int], height as nat)
            } else {
                before.groups[g as int].layers[i as int]
            });
            if self.groups[g].layers[i].kind.is_physics_class() {
                let r = set_layer_height(&mut self.groups[g].layers[i], height);
                assert(self.groups@[g as int].layers@[i as int]@ == layer_with_height(
                    cur.groups[g as int].layers[i as int],
                    height as nat,
                ));
            }
            assert(self@.groups =~= layer_with_all(cur, g as int, self@.groups[g as int].layers).groups);
            assert(self@.groups[g as int].layers[i as int] == target);
            assert(self@.groups[g as int].layers =~= cur.groups[g as int].layers.update(
                i as int,
                physics_layers_with_height(before.groups[g as int].layers, height as nat)[i as int],
            ));
            assert(self@.groups =~= layer_with_all(before, g as int, self@.groups[g as int].layers).groups);
            i = i + 1;
        }
        assert(self@.groups[g as int].layers =~= physics_layers_with_height(before.groups[g as int].layers, height as nat));
    }
}

impl Document {
    /// Applies one change to a layer: a move, a new name or color, or a
    /// resize. A resize of a physics-class layer resizes every
    /// physics-class layer of its group, so that they keep one size.
    pub fn edit_layer(&mut self, edit_layer: &LayerChange) -> (r: Result<(), ServerError>)
        ensures
            r is Ok <==> layer_change_valid(old(self)@, *edit_layer),
            r is Ok ==> final(self)@ == layer_change_applied(old(self)@, *edit_layer),
            r matches Err(e) ==> e == ServerError::InvalidEdit && final(self)@ == old(self)@,
    {
        let g = edit_layer.group as usize;
        let l = edit_layer.layer as usize;
        if g >= self.groups.len() || l >= self.groups[g].layers.len() {
            return Err(ServerError::InvalidEdit);
        }
        let ghost before = self@;
        let kind = self.groups[g].layers[l].kind;
        match &edit_layer.change {
            OneLayerChange::Order(o) => {
                return self.reorder_layer(edit_layer.group, edit_layer.layer, o.group, o.layer);
            },
            OneLayerChange::Name(name) => {
                if !kind.has_name() {
                    return Err(ServerError::InvalidEdit);
                }
                self.groups[g].layers[l].name = name.clone();
                assert(self@.groups[g as int].layers =~= layer_change_applied(before, *edit_layer).groups[g as int].layers);
            },
            OneLayerChange::Color(color) => {
                if !kind.has_color() {
                    return Err(ServerError::InvalidEdit);
                }
                self.groups[g].layers[l].color = *color;
                assert(self@.groups[g as int].layers =~= layer_change_applied(before, *edit_layer).groups[g as int].layers);
            },
            OneLayerChange::Width(w) => {
                let width = *w as usize;
                if width == 0 || width > MAX_DIMENSION {
                    return Err(ServerError::InvalidEdit);
                }
                if kind.is_physics_class() {
                    self.set_physics_width(g, width);
                    assert(self@.groups =~= layer_change_applied(before, *edit_layer).groups);
                    return Ok(());
                }
                if kind != LayerKind::Tiles || self.groups[g].layers[l].grid.is_none() {
                    return Err(ServerError::InvalidEdit);
                }
                let _ = set_layer_width(&mut self.groups[g].layers[l], width);
                assert(self@.groups[g as int].layers =~= layer_change_applied(before, *edit_layer).groups[g as int].layers);
            },
            OneLayerChange::Height(h) => {
                let height = *h as usize;
                if height == 0 || height > MAX_DIMENSION {
                    return Err(ServerError::InvalidEdit);
                }
                if kind.is_physics_class() {
                    self.set_physics_height(g, height);
                    assert(self@.groups =~= layer_change_applied(before, *edit_layer).groups);
                    return Ok(());
                }
                if kind != LayerKind::Tiles || self.groups[g].layers[l].grid.is_none() {
                    return Err(ServerError::InvalidEdit);
                }
                let _ = set_layer_height(&mut self.groups[g].layers[l], height);
                assert(self@.groups[g as int].layers =~= layer_change_applied(before, *edit_layer).groups[g as int].layers);
            },
        }
        assert(self@.groups =~= layer_change_applied(before, *edit_layer).groups);
        Ok(())
    }
}

/// The document with the layers of group `g` replaced.
pub open spec fn layer_with_all(d: DocView, g: int, layers: Seq<LayerView>) -> DocView {
    group_with(d, g, GroupView { layers, ..d.groups[g] })
}

/// Whether a room request is an edit of the document.
pub open spec fn is_edit(req: RoomRequest) -> bool {
    !(req is FetchMap || req is Save)
}

/// Whether an edit request may be applied to `d`.
pub open spec fn request_valid(d: DocView, req: RoomRequest) -> bool {
    match req {
        RoomRequest::GroupChange(c) => group_change_valid(d, c),
        RoomRequest::LayerChange(c) => layer_change_valid(d, c),
        RoomRequest::TileChange(c) => tile_change_valid(d, c),
        RoomRequest::CreateGroup(_) => true,
        RoomRequest::DeleteGroup(c) => delete_group_valid(d, c.group as int),
        RoomRequest::CreateLayer(c) => create_layer_valid(d, c),
        RoomRequest::DeleteLayer(c) => delete_layer_valid(d, c.group as int, c.layer as int),
        _ => false,
    }
}

/// The document after a valid edit request.
pub open spec fn request_applied(d: DocView, req: RoomRequest) -> DocView {
    match req {
        RoomRequest::GroupChange(c) => group_change_applied(d, c),
        RoomRequest::LayerChange(c) => layer_change_applied(d, c),
        RoomRequest::TileChange(c) => tile_change_applied(d, c),
        RoomRequest::CreateGroup(c) => DocView { groups: d.groups.push(new_group_view(c.name@)) },
        RoomRequest::DeleteGroup(c) => DocView { groups: d.groups.remove(c.group as int) },
        RoomRequest::CreateLayer(c) => layer_with_all(
            d,
            c.group as int,
            d.groups[c.group as int].layers.push(created_layer(d, c)),
        ),
        RoomRequest::DeleteLayer(c) => layer_with_all(
            d,
            c.group as int,
            d.groups[c.group as int].layers.remove(c.layer as int),
        ),
        _ => d,
    }
}

/// The message broadcast for an accepted edit: the edit itself.
pub open spec fn mirror(req: RoomRequest) -> RoomResponse {
    match req {
        RoomRequest::GroupChange(c) => RoomResponse::GroupChange(c),
        RoomRequest::LayerChange(c) => RoomResponse::LayerChange(c),
        RoomRequest::TileChange(c) => RoomResponse::TileChange(c),
        RoomRequest::CreateGroup(c) => RoomResponse::CreateGroup(c),
        RoomRequest::DeleteGroup(c) => RoomResponse::DeleteGroup(c),
        RoomRequest::CreateLayer(c) => RoomResponse::CreateLayer(c),
        RoomRequest::DeleteLayer(c) => RoomResponse::DeleteLayer(c),
        _ => RoomResponse::Users(crate::protocol::Users { count: 0 }),
    }
}

/// What a client does with a broadcast message: it applies the edit it
/// carries to its own copy of the document.
pub open spec fn response_applied(d: DocView, resp: RoomResponse) -> DocView {
    match resp {
        RoomResponse::GroupChange(c) => request_applied(d, RoomRequest::GroupChange(c)),
        RoomResponse::LayerChange(c) => request_applied(d, RoomRequest::LayerChange(c)),
        RoomResponse::TileChange(c) => request_applied(d, RoomRequest::TileChange(c)),
        RoomResponse::CreateGroup(c) => request_applied(d, RoomRequest::CreateGroup(c)),
        RoomResponse::DeleteGroup(c) => request_applied(d, RoomRequest::DeleteGroup(c)),
        RoomResponse::CreateLayer(c) => request_applied(d, RoomRequest::CreateLayer(c)),
        RoomResponse::DeleteLayer(c) => request_applied(d, RoomRequest::DeleteLayer(c)),
        RoomResponse::Users(_) => d,
    }
}

} // verus!
