use map_server::document::{Clip, Color, Document, Grid, Group, Layer, LayerKind, Tile, MAX_DIMENSION};
use map_server::edit::{set_layer_height, set_layer_width};
use map_server::error::ServerError;
use map_server::protocol::{
    CreateGroup, CreateLayer, DeleteGroup, DeleteLayer, GroupChange, LayerChange, LayerOrderChange,
    OneGroupChange, OneLayerChange, TileChange,
};

fn no_clip() -> Clip {
    Clip { enabled: false, x: 0, y: 0, w: 0, h: 0 }
}

fn white() -> Color {
    Color { r: 255, g: 255, b: 255, a: 255 }
}

fn layer(kind: LayerKind, name: &str, grid: Option<Grid>) -> Layer {
    Layer { kind, name: name.to_string(), color: white(), grid, extra: None }
}

fn group(name: &str, layers: Vec<Layer>) -> Group {
    Group { name: name.to_string(), offset_x: 0, offset_y: 0, parallax_x: 100, parallax_y: 100, clip: no_clip(), layers }
}

fn doc() -> Document {
    Document {
        groups: vec![
            group(
                "Game",
                vec![
                    layer(LayerKind::Game, "", Some(Grid::new(3, 2))),
                    layer(LayerKind::Tele, "", Some(Grid::new(3, 2))),
                    layer(LayerKind::Tiles, "walls", Some(Grid::new(3, 2))),
                ],
            ),
            group("bg", vec![layer(LayerKind::Tiles, "deco", Some(Grid::new(2, 2))), layer(LayerKind::Quads, "sky", None)]),
        ],
    }
}

fn grid_of(d: &Document, g: usize, l: usize) -> &Grid {
    d.groups[g].layers[l].grid.as_ref().unwrap()
}

fn edit(d: &mut Document, g: u32, l: u32, change: OneLayerChange) -> Result<(), ServerError> {
    d.edit_layer(&LayerChange { group: g, layer: l, change })
}

#[test]
fn resize_rejects_zero_and_too_large() {
    let mut d = doc();
    let before = d.clone();
    assert_eq!(edit(&mut d, 1, 0, OneLayerChange::Width(0)), Err(ServerError::InvalidEdit));
    assert_eq!(edit(&mut d, 1, 0, OneLayerChange::Height(10001)), Err(ServerError::InvalidEdit));
    assert_eq!(edit(&mut d, 0, 0, OneLayerChange::Width(10001)), Err(ServerError::InvalidEdit));
    assert_eq!(d, before);
    assert_eq!(edit(&mut d, 1, 0, OneLayerChange::Width(10000)), Ok(()));
    assert_eq!(grid_of(&d, 1, 0).width, MAX_DIMENSION);
    assert_eq!(grid_of(&d, 1, 0).rows[1].len(), 10000);
}

#[test]
fn resize_sets_the_requested_shape() {
    let mut d = doc();
    assert_eq!(edit(&mut d, 1, 0, OneLayerChange::Width(5)), Ok(()));
    assert_eq!(edit(&mut d, 1, 0, OneLayerChange::Height(4)), Ok(()));
    let g = grid_of(&d, 1, 0);
    assert_eq!(g.width, 5);
    assert_eq!(g.height(), 4);
    assert!(g.rows.iter().all(|r| r.len() == 5));
}

#[test]
fn grow_then_shrink_keeps_tiles() {
    let mut l = layer(LayerKind::Tiles, "t", Some(Grid::new(3, 2)));
    l.grid.as_mut().unwrap().set_tile(2, 1, 7);
    l.grid.as_mut().unwrap().set_tile(0, 0, 4);
    let before_resize = l.clone();
    assert_eq!(set_layer_width(&mut l, 8), Ok(()));
    assert_eq!(set_layer_height(&mut l, 6), Ok(()));
    assert_eq!(l.grid.as_ref().unwrap().rows[1][2].id, 7);
    assert_eq!(l.grid.as_ref().unwrap().rows[5][7], Tile::empty());
    assert_eq!(set_layer_width(&mut l, 3), Ok(()));
    assert_eq!(set_layer_height(&mut l, 2), Ok(()));
    assert_eq!(l, before_resize);
}

#[test]
fn set_layer_width_needs_a_grid() {
    let mut quads = layer(LayerKind::Quads, "q", None);
    assert_eq!(set_layer_width(&mut quads, 4), Err(ServerError::InvalidEdit));
    assert_eq!(set_layer_height(&mut quads, 4), Err(ServerError::InvalidEdit));
    let mut d = doc();
    assert_eq!(edit(&mut d, 1, 1, OneLayerChange::Width(4)), Err(ServerError::InvalidEdit));
}

#[test]
fn physics_layers_resize_together() {
    let mut d = doc();
    assert_eq!(edit(&mut d, 0, 1, OneLayerChange::Width(7)), Ok(()));
    assert_eq!(grid_of(&d, 0, 0).width, 7);
    assert_eq!(grid_of(&d, 0, 1).width, 7);
    assert_eq!(grid_of(&d, 0, 2).width, 3);
    assert_eq!(edit(&mut d, 0, 0, OneLayerChange::Height(9)), Ok(()));
    assert_eq!(grid_of(&d, 0, 0).height(), 9);
    assert_eq!(grid_of(&d, 0, 1).height(), 9);
    assert_eq!(grid_of(&d, 0, 2).height(), 2);
}

#[test]
fn physics_group_and_game_layer_are_protected() {
    let mut d = doc();
    let before = d.clone();
    assert_eq!(d.delete_group(&DeleteGroup { group: 0 }), Err(ServerError::InvalidEdit));
    assert_eq!(
        d.edit_group(&GroupChange { group: 0, change: OneGroupChange::Name("x".to_string()) }),
        Err(ServerError::InvalidEdit)
    );
    assert_eq!(d.delete_layer(&DeleteLayer { group: 0, layer: 0 }), Err(ServerError::InvalidEdit));
    assert_eq!(edit(&mut d, 0, 0, OneLayerChange::Name("x".to_string())), Err(ServerError::InvalidEdit));
    assert_eq!(d, before);
    assert!(d.groups[0].is_physics_group());
    assert!(!d.groups[1].is_physics_group());
}

#[test]
fn delete_group_and_layer() {
    let mut d = doc();
    assert_eq!(d.delete_group(&DeleteGroup { group: 2 }), Err(ServerError::InvalidEdit));
    assert_eq!(d.delete_layer(&DeleteLayer { group: 0, layer: 3 }), Err(ServerError::InvalidEdit));
    assert_eq!(d.delete_layer(&DeleteLayer { group: 0, layer: 1 }), Ok(()));
    assert_eq!(d.groups[0].layers.len(), 2);
    assert_eq!(d.groups[0].layers[1].name, "walls");
    assert_eq!(d.delete_group(&DeleteGroup { group: 1 }), Ok(()));
    assert_eq!(d.groups.len(), 1);
}

#[test]
fn group_properties_change() {
    let mut d = doc();
    let g = |change| GroupChange { group: 1, change };
    assert_eq!(d.edit_group(&g(OneGroupChange::OffX(-3))), Ok(()));
    assert_eq!(d.edit_group(&g(OneGroupChange::OffY(4))), Ok(()));
    assert_eq!(d.edit_group(&g(OneGroupChange::ParaX(20))), Ok(()));
    assert_eq!(d.edit_group(&g(OneGroupChange::ParaY(30))), Ok(()));
    assert_eq!(d.edit_group(&g(OneGroupChange::Name("back".to_string()))), Ok(()));
    let b = &d.groups[1];
    assert_eq!((b.offset_x, b.offset_y, b.parallax_x, b.parallax_y), (-3, 4, 20, 30));
    assert_eq!(b.name, "back");
    assert_eq!(
        d.edit_group(&GroupChange { group: 5, change: OneGroupChange::OffX(1) }),
        Err(ServerError::InvalidEdit)
    );
}

#[test]
fn reorder_groups() {
    let mut d = doc();
    assert_eq!(d.edit_group(&GroupChange { group: 1, change: OneGroupChange::Order(2) }), Err(ServerError::InvalidEdit));
    assert_eq!(d.groups.len(), 2);
    assert_eq!(d.edit_group(&GroupChange { group: 1, change: OneGroupChange::Order(0) }), Ok(()));
    assert_eq!(d.groups[0].name, "bg");
    assert_eq!(d.groups[1].name, "Game");
    assert_eq!(d.reorder_group(0, 1), Ok(()));
    assert_eq!(d.groups[0].name, "Game");
}

#[test]
fn reorder_layers() {
    let mut d = doc();
    let order = |group, layer| OneLayerChange::Order(LayerOrderChange { group, layer });
    assert_eq!(edit(&mut d, 0, 0, order(1, 0)), Err(ServerError::InvalidEdit));
    assert_eq!(edit(&mut d, 0, 2, order(1, 3)), Err(ServerError::InvalidEdit));
    assert_eq!(edit(&mut d, 0, 2, order(0, 3)), Err(ServerError::InvalidEdit));
    assert_eq!(edit(&mut d, 0, 2, order(1, 2)), Ok(()));
    assert_eq!(d.groups[0].layers.len(), 2);
    assert_eq!(d.groups[1].layers[2].name, "walls");
    assert_eq!(edit(&mut d, 1, 2, order(1, 0)), Ok(()));
    assert_eq!(d.groups[1].layers[0].name, "walls");
    assert_eq!(d.groups[1].layers[1].name, "deco");
    assert_eq!(edit(&mut d, 0, 0, order(0, 1)), Ok(()));
    assert_eq!(d.groups[0].layers[1].kind, LayerKind::Game);
}

#[test]
fn rename_and_recolor_layers() {
    let mut d = doc();
    assert_eq!(edit(&mut d, 1, 1, OneLayerChange::Name("clouds".to_string())), Ok(()));
    assert_eq!(d.groups[1].layers[1].name, "clouds");
    let red = Color { r: 255, g: 0, b: 0, a: 128 };
    assert_eq!(edit(&mut d, 1, 0, OneLayerChange::Color(red)), Ok(()));
    assert_eq!(d.groups[1].layers[0].color, red);
    assert_eq!(edit(&mut d, 1, 1, OneLayerChange::Color(red)), Err(ServerError::InvalidEdit));
    assert_eq!(edit(&mut d, 0, 1, OneLayerChange::Name("t".to_string())), Err(ServerError::InvalidEdit));
    assert_eq!(edit(&mut d, 2, 0, OneLayerChange::Name("t".to_string())), Err(ServerError::InvalidEdit));
    assert_eq!(edit(&mut d, 1, 2, OneLayerChange::Name("t".to_string())), Err(ServerError::InvalidEdit));
}

#[test]
fn create_group_and_layers() {
    let mut d = doc();
    d.create_group(&CreateGroup { name: "fg".to_string() });
    assert_eq!(d.groups.len(), 3);
    assert_eq!(d.groups[2].name, "fg");
    assert_eq!((d.groups[2].parallax_x, d.groups[2].parallax_y), (100, 100));
    assert!(d.groups[2].layers.is_empty());
    let tiles = CreateLayer { group: 2, kind: LayerKind::Tiles, name: "t".to_string() };
    assert_eq!(d.create_layer(&tiles), Ok(()));
    let g = grid_of(&d, 2, 0);
    assert_eq!((g.width, g.height()), (3, 2));
    assert_eq!(d.groups[2].layers[0].color, white());
    let quads = CreateLayer { group: 2, kind: LayerKind::Quads, name: "q".to_string() };
    assert_eq!(d.create_layer(&quads), Ok(()));
    assert!(d.groups[2].layers[1].grid.is_none());
    let game = CreateLayer { group: 2, kind: LayerKind::Game, name: "g".to_string() };
    assert_eq!(d.create_layer(&game), Err(ServerError::InvalidEdit));
    let bad_group = CreateLayer { group: 9, kind: LayerKind::Quads, name: "q".to_string() };
    assert_eq!(d.create_layer(&bad_group), Err(ServerError::InvalidEdit));
    assert_eq!(d.groups[2].layers.len(), 2);
}

#[test]
fn tile_change_checks_bounds() {
    let mut d = doc();
    assert_eq!(d.set_tile(&TileChange { group: 0, layer: 0, x: 2, y: 1, id: 8 }), Ok(()));
    assert_eq!(grid_of(&d, 0, 0).rows[1][2].id, 8);
    assert_eq!(d.set_tile(&TileChange { group: 0, layer: 0, x: 3, y: 0, id: 8 }), Err(ServerError::InvalidEdit));
    assert_eq!(d.set_tile(&TileChange { group: 0, layer: 0, x: 0, y: 2, id: 8 }), Err(ServerError::InvalidEdit));
    let mut no_game = Document { groups: vec![group("bg", vec![layer(LayerKind::Quads, "q", None)])] };
    assert_eq!(no_game.find_game_layer(), None);
    assert_eq!(no_game.set_tile(&TileChange { group: 0, layer: 0, x: 0, y: 0, id: 1 }), Err(ServerError::InvalidEdit));
    let tiles = CreateLayer { group: 0, kind: LayerKind::Tiles, name: "t".to_string() };
    assert_eq!(no_game.create_layer(&tiles), Err(ServerError::InvalidEdit));
    assert_eq!(d.find_game_layer(), Some((0, 0)));
}

#[test]
fn layer_kind_capabilities() {
    assert!(LayerKind::Tiles.has_grid() && LayerKind::Tiles.has_name() && LayerKind::Tiles.has_color());
    assert!(LayerKind::Speedup.is_physics_class() && LayerKind::Speedup.has_grid());
    assert!(!LayerKind::Quads.has_grid() && LayerKind::Quads.has_name());
    assert!(!LayerKind::Sounds.is_physics_class() && !LayerKind::Invalid.has_name());
    assert!(!LayerKind::Game.has_name());
}

#[test]
fn duplicate_is_equal() {
    let d = doc();
    assert_eq!(d.duplicate(), d);
}

#[test]
fn tile_change_keeps_the_other_tile_fields() {
    let mut d = doc();
    let rich = Tile { id: 1, flags: 0b1001, number: 4, force: 2, max_speed: 9, angle: 270, delay: 3 };
    d.groups[0].layers[0].grid.as_mut().unwrap().rows[1][2] = rich;
    assert_eq!(d.set_tile(&TileChange { group: 0, layer: 0, x: 2, y: 1, id: 8 }), Ok(()));
    assert_eq!(grid_of(&d, 0, 0).rows[1][2], Tile { id: 8, ..rich });
}

#[test]
fn resize_moves_whole_tiles() {
    let mut d = doc();
    let rich = Tile { id: 5, flags: 0b0011, number: 7, force: 1, max_speed: 2, angle: -90, delay: 6 };
    d.groups[0].layers[1].grid.as_mut().unwrap().rows[1][1] = rich;
    assert_eq!(edit(&mut d, 0, 1, OneLayerChange::Width(10)), Ok(()));
    assert_eq!(edit(&mut d, 0, 1, OneLayerChange::Height(7)), Ok(()));
    assert_eq!(grid_of(&d, 0, 1).rows[1][1], rich);
    assert_eq!(grid_of(&d, 0, 1).rows[6][9], Tile::empty());
    assert_eq!(edit(&mut d, 0, 1, OneLayerChange::Width(3)), Ok(()));
    assert_eq!(edit(&mut d, 0, 1, OneLayerChange::Height(2)), Ok(()));
    assert_eq!(grid_of(&d, 0, 1).rows[1][1], rich);
    assert_eq!(d.groups[0].layers[1], {
        let mut l = layer(LayerKind::Tele, "", Some(Grid::new(3, 2)));
        l.grid.as_mut().unwrap().rows[1][1] = rich;
        l
    });
}

#[test]
fn layer_data_and_clipping_travel_with_edits() {
    let mut d = doc();
    let mut quads = twmap::QuadsLayer::default();
    quads.name = "sky".to_string();
    quads.detail = true;
    quads.image = Some(3);
    let extra = twmap::Layer::Quads(quads);
    d.groups[1].layers[1].extra = Some(extra.clone());
    d.groups[1].clip = Clip { enabled: true, x: 32, y: -64, w: 320, h: 640 };
    let order = OneLayerChange::Order(LayerOrderChange { group: 0, layer: 0 });
    assert_eq!(edit(&mut d, 1, 1, order), Ok(()));
    assert_eq!(d.groups[0].layers[0].extra, Some(extra.clone()));
    assert_eq!(edit(&mut d, 0, 0, OneLayerChange::Name("clouds".to_string())), Ok(()));
    assert_eq!(d.groups[0].layers[0].extra, Some(extra));
    assert_eq!(d.edit_group(&GroupChange { group: 1, change: OneGroupChange::Order(0) }), Ok(()));
    assert_eq!(d.groups[0].clip, Clip { enabled: true, x: 32, y: -64, w: 320, h: 640 });
    assert_eq!(d.duplicate(), d);
}
