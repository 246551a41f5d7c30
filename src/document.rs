//! The shared map document: ordered groups of ordered layers, some of which
//! carry a rectangular grid of tile identifiers.
use vstd::prelude::*;

use twmap::Layer as TwLayer;

verus! {

/// The largest width or height a grid may be resized to.
pub const MAX_DIMENSION: usize = 10000;

/// One cell of a grid: its identifier and every other field a tile of any
/// layer kind carries. Fields that a kind does not use stay zero.
#[derive(Debug, Clone, Copy, PartialEq, Eq, Structural)]
pub struct Tile {
    pub id: u8,
    /// Mirroring and rotation flags.
    pub flags: u8,
    /// Teleporter, switch or tune zone number.
    pub number: u8,
    /// Speedup force.
    pub force: u8,
    /// Speedup maximum speed.
    pub max_speed: u8,
    /// Speedup angle in degrees.
    pub angle: i16,
    /// Switch delay.
    pub delay: u8,
}

/// The cell that padding adds.
pub open spec fn empty_tile() -> Tile {
    Tile { id: 0, flags: 0, number: 0, force: 0, max_speed: 0, angle: 0, delay: 0 }
}

impl Tile {
    pub fn empty() -> (t: Tile)
        ensures
            t == empty_tile(),
    {
        Tile { id: 0, flags: 0, number: 0, force: 0, max_speed: 0, angle: 0, delay: 0 }
    }
}

/// A rectangular grid of tiles, stored row by row.
#[derive(Debug, Clone, PartialEq, Eq)]
pub struct Grid {
    pub width: usize,
    pub rows: Vec<Vec<Tile>>,
}

/// The mathematical content of a grid.
pub struct GridView {
    pub width: nat,
    pub rows: Seq<Seq<Tile>>,
}

impl View for Grid {
    type V = GridView;

    open spec fn view(&self) -> GridView {
        GridView { width: self.width as nat, rows: self.rows@.map_values(|r: Vec<Tile>| r@) }
    }
}

impl GridView {
    pub open spec fn height(self) -> nat {
        self.rows.len()
    }

    /// Every row has exactly `width` cells.
    pub open spec fn wf(self) -> bool {
        forall|y: int| 0 <= y < self.rows.len() ==> #[trigger] self.rows[y].len() == self.width
    }
}

/// A row cut or padded with empty cells at its right end to `width` cells.
pub open spec fn row_resized(row: Seq<Tile>, width: nat) -> Seq<Tile> {
    Seq::new(width, |x: int| if x < row.len() { row[x] } else { empty_tile() })
}

/// The grid with every row cut or padded at the right edge to `width` cells.
pub open spec fn grid_with_width(g: GridView, width: nat) -> GridView {
    GridView { width, rows: g.rows.map_values(|r: Seq<Tile>| row_resized(r, width)) }
}

/// The grid with rows cut or padded with empty rows at the bottom edge to `height` rows.
pub open spec fn grid_with_height(g: GridView, height: nat) -> GridView {
    GridView {
        width: g.width,
        rows: Seq::new(
            height,
            |y: int| if y < g.rows.len() { g.rows[y] } else { Seq::new(g.width, |x: int| empty_tile()) },
        ),
    }
}

/// A grid of `width` by `height` empty cells.
pub open spec fn empty_grid(width: nat, height: nat) -> GridView {
    GridView { width, rows: Seq::new(height, |y: int| Seq::new(width, |x: int| empty_tile())) }
}

/// The grid with the identifier of the cell at column `x` of row `y` set
/// to `id`; the cell's other fields are kept.
pub open spec fn grid_with_tile(g: GridView, x: int, y: int, id: u8) -> GridView {
    GridView { rows: g.rows.update(y, g.rows[y].update(x, Tile { id, ..g.rows[y][x] })), ..g }
}

/// Whether column `x` of row `y` is a cell of the grid.
pub open spec fn tile_in_grid(g: GridView, x: int, y: int) -> bool {
    0 <= y < g.rows.len() && 0 <= x < g.width && x < g.rows[y].len()
}

/// A dimension that a grid may be resized to.
pub open spec fn valid_dimension(n: int) -> bool {
    1 <= n <= MAX_DIMENSION
}

fn resized_row(row: &Vec<Tile>, width: usize) -> (r: Vec<Tile>)
    ensures
        r@ == row_resized(row@, width as nat),
{
    let mut r: Vec<Tile> = Vec::new();
    let mut x: usize = 0;
    while x < width
        invariant
            x <= width,
            r@ =~= row_resized(row@, width as nat).subrange(0, x as int),
        decreases width - x,
    {
        if x < row.len() {
            r.push(row[x]);
        } else {
            r.push(Tile::empty());
        }
        x = x + 1;
    }
    assert(r@ =~= row_resized(row@, width as nat));
    r
}

impl Grid {
    /// A grid of `width` by `height` empty cells.
    pub fn new(width: usize, height: usize) -> (g: Grid)
        ensures
            g@ == empty_grid(width as nat, height as nat),
    {
        let mut rows: Vec<Vec<Tile>> = Vec::new();
        let empty: Vec<Tile> = Vec::new();
        let mut y: usize = 0;
        while y < height
            invariant
                y <= height,
                rows@.len() == y,
                empty@.len() == 0,
                forall|i: int| 0 <= i < y ==> #[trigger] rows@[i]@ == row_resized(empty@, width as nat),
            decreases height - y,
        {
            rows.push(resized_row(&empty, width));
            y = y + 1;
        }
        let g = Grid { width, rows };
        assert forall|i: int| 0 <= i < height implies #[trigger] g@.rows[i] == empty_grid(width as nat, height as nat).rows[i] by {
            assert(g@.rows[i] =~= empty_grid(width as nat, height as nat).rows[i]);
        }
        assert(g@.rows =~= empty_grid(width as nat, height as nat).rows);
        g
    }

    /// Sets the identifier of the cell at column `x` of row `y`.
    pub fn set_tile(&mut self, x: usize, y: usize, id: u8)
        requires
            tile_in_grid(old(self)@, x as int, y as int),
        ensures
            final(self)@ == grid_with_tile(old(self)@, x as int, y as int, id),
    {
        let ghost before = self@;
        let mut t = self.rows[y][x];
        t.id = id;
        self.rows[y].set(x, t);
        assert(self@.rows =~= grid_with_tile(before, x as int, y as int, id).rows);
    }

    /// Whether column `x` of row `y` is a cell of the grid.
    pub fn contains(&self, x: usize, y: usize) -> (r: bool)
        ensures
            r == tile_in_grid(self@, x as int, y as int),
    {
        y < self.rows.len() && x < self.width && x < self.rows[y].len()
    }

    pub fn height(&self) -> (h: usize)
        ensures
            h == self@.height(),
    {
        self.rows.len()
    }

    /// Sets the width, cutting or padding every row at its right end.
    pub fn set_width(&mut self, width: usize)
        ensures
            final(self)@ == grid_with_width(old(self)@, width as nat),
    {
        let mut rows: Vec<Vec<Tile>> = Vec::new();
        let mut y: usize = 0;
        while y < self.rows.len()
            invariant
                y <= self.rows@.len(),
                rows@.len() == y,
                forall|i: int| 0 <= i < y ==> #[trigger] rows@[i]@ == row_resized(self.rows@[i]@, width as nat),
            decreases self.rows@.len() - y,
        {
            rows.push(resized_row(&self.rows[y], width));
            y = y + 1;
        }
        let ghost before = self@;
        self.width = width;
        self.rows = rows;
        assert(self@.rows =~= grid_with_width(before, width as nat).rows);
    }

    /// Sets the height, cutting rows or adding empty rows at the bottom.
    pub fn set_height(&mut self, height: usize)
        ensures
            final(self)@ == grid_with_height(old(self)@, height as nat),
    {
        let ghost before = self@;
        let empty: Vec<Tile> = Vec::new();
        if height < self.rows.len() {
            self.rows.truncate(height);
        } else {
            while self.rows.len() < height
                invariant
                    self.width == before.width,
                    empty@.len() == 0,
                    before.rows.len() <= self.rows@.len() <= height,
                    forall|i: int| 0 <= i < before.rows.len() ==> #[trigger] self.rows@[i]@ == before.rows[i],
                    forall|i: int| before.rows.len() <= i < self.rows@.len()
                        ==> #[trigger] self.rows@[i]@ == row_resized(empty@, self.width as nat),
                decreases height - self.rows@.len(),
            {
                self.rows.push(resized_row(&empty, self.width));
            }
        }
        assert forall|i: int| 0 <= i < height implies #[trigger] self@.rows[i] == grid_with_height(before, height as nat).rows[i] by {
            if i >= before.rows.len() {
                assert(self@.rows[i] =~= Seq::new(before.width, |x: int| empty_tile()));
            }
        }
        assert(self@.rows =~= grid_with_height(before, height as nat).rows);
    }
}

impl Grid {
    /// An independent copy of the grid.
    pub fn duplicate(&self) -> (r: Grid)
        ensures
            r@ == self@,
    {
        let mut rows: Vec<Vec<Tile>> = Vec::new();
        let mut y: usize = 0;
        while y < self.rows.len()
            invariant
                y <= self.rows@.len(),
                rows@.len() == y,
                forall|i: int| 0 <= i < y ==> #[trigger] rows@[i]@ == self.rows@[i]@,
            decreases self.rows@.len() - y,
        {
            let row = resized_row(&self.rows[y], self.rows[y].len());
            assert(row@ =~= self.rows@[y as int]@);
            rows.push(row);
            y = y + 1;
        }
        let r = Grid { width: self.width, rows };
        assert(r@.rows =~= self@.rows);
        r
    }
}

/// The kind of a layer, which decides what it holds and which edits it accepts.
#[derive(Debug, Clone, Copy, PartialEq, Eq, Structural)]
pub enum LayerKind {
    Game,
    Front,
    Tele,
    Speedup,
    Switch,
    Tune,
    Tiles,
    Quads,
    Sounds,
    Invalid,
}

impl LayerKind {
    /// Layers of these kinds carry a tile grid.
    pub open spec fn spec_has_grid(self) -> bool {
        self.spec_is_physics_class() || self == LayerKind::Tiles
    }

    /// Layers of these kinds have a name that may be edited.
    pub open spec fn spec_has_name(self) -> bool {
        self == LayerKind::Tiles || self == LayerKind::Quads || self == LayerKind::Sounds
    }

    /// Layers of these kinds have a color that may be edited.
    pub open spec fn spec_has_color(self) -> bool {
        self == LayerKind::Tiles
    }

    /// The gameplay layers, whose grids are kept the same size within a group.
    pub open spec fn spec_is_physics_class(self) -> bool {
        match self {
            LayerKind::Game | LayerKind::Front | LayerKind::Tele | LayerKind::Speedup
            | LayerKind::Switch | LayerKind::Tune => true,
            _ => false,
        }
    }

    #[verifier::when_used_as_spec(spec_has_grid)]
    pub fn has_grid(self) -> (r: bool)
        ensures
            r == self.spec_has_grid(),
    {
        self.is_physics_class() || self == LayerKind::Tiles
    }

    #[verifier::when_used_as_spec(spec_has_name)]
    pub fn has_name(self) -> (r: bool)
        ensures
            r == self.spec_has_name(),
    {
        self == LayerKind::Tiles || self == LayerKind::Quads || self == LayerKind::Sounds
    }

    #[verifier::when_used_as_spec(spec_has_color)]
    pub fn has_color(self) -> (r: bool)
        ensures
            r == self.spec_has_color(),
    {
        self == LayerKind::Tiles
    }

    #[verifier::when_used_as_spec(spec_is_physics_class)]
    pub fn is_physics_class(self) -> (r: bool)
        ensures
            r == self.spec_is_physics_class(),
    {
        match self {
            LayerKind::Game | LayerKind::Front | LayerKind::Tele | LayerKind::Speedup
            | LayerKind::Switch | LayerKind::Tune => true,
            _ => false,
        }
    }
}

/// An RGBA color.
#[derive(Debug, Clone, Copy, PartialEq, Eq, Structural)]
pub struct Color {
    pub r: u8,
    pub g: u8,
    pub b: u8,
    pub a: u8,
}

/// A layer as the map format holds it. In a document it carries what the
/// edits never read (quads, sound sources, image and envelope references,
/// detail and automapper settings); its tiles are held by the grid instead.
#[verifier::external_type_specification]
#[verifier::external_body]
pub struct ExTwLayer(TwLayer);

/// Relies on the `Clone` that `twmap::Layer` derives: the copy equals the
/// value it was taken from in every field.
pub assume_specification[ <TwLayer as Clone>::clone ](l: &TwLayer) -> (r: TwLayer)
    ensures
        r == *l,
;

/// One layer of a group.
#[derive(Debug, Clone, PartialEq, Eq)]
pub struct Layer {
    pub kind: LayerKind,
    pub name: String,
    pub color: Color,
    pub grid: Option<Grid>,
    /// The layer's remaining data, if it came from a map; a layer created
    /// by an edit has none.
    pub extra: Option<TwLayer>,
}

pub struct LayerView {
    pub kind: LayerKind,
    pub name: Seq<char>,
    pub color: Color,
    pub grid: Option<GridView>,
    pub extra: Option<TwLayer>,
}

impl View for Layer {
    type V = LayerView;

    open spec fn view(&self) -> LayerView {
        LayerView {
            kind: self.kind,
            name: self.name@,
            color: self.color,
            grid: match self.grid {
                Some(g) => Some(g@),
                None => None,
            },
            extra: self.extra,
        }
    }
}

impl LayerView {
    /// A layer holds a grid exactly when its kind has one, and the grid is rectangular.
    pub open spec fn wf(self) -> bool {
        &&& self.kind.spec_has_grid() <==> self.grid is Some
        &&& self.grid matches Some(g) ==> g.wf()
    }
}

/// The rectangle outside of which a group is not drawn, in the map
/// format's fixed-point units (1/32 of a tile).
#[derive(Debug, Clone, Copy, PartialEq, Eq, Structural)]
pub struct Clip {
    pub enabled: bool,
    pub x: i32,
    pub y: i32,
    pub w: i32,
    pub h: i32,
}

/// A group: an ordered list of layers with a shared offset and parallax.
#[derive(Debug, Clone, PartialEq, Eq)]
pub struct Group {
    pub name: String,
    pub offset_x: i32,
    pub offset_y: i32,
    pub parallax_x: i32,
    pub parallax_y: i32,
    pub clip: Clip,
    pub layers: Vec<Layer>,
}

pub struct GroupView {
    pub name: Seq<char>,
    pub offset_x: i32,
    pub offset_y: i32,
    pub parallax_x: i32,
    pub parallax_y: i32,
    pub clip: Clip,
    pub layers: Seq<LayerView>,
}

impl View for Group {
    type V = GroupView;

    open spec fn view(&self) -> GroupView {
        GroupView {
            name: self.name@,
            offset_x: self.offset_x,
            offset_y: self.offset_y,
            parallax_x: self.parallax_x,
            parallax_y: self.parallax_y,
            clip: self.clip,
            layers: self.layers@.map_values(|l: Layer| l@),
        }
    }
}

impl GroupView {
    /// The physics group is the one that holds a physics-class layer.
    pub open spec fn is_physics_group(self) -> bool {
        exists|l: int| 0 <= l < self.layers.len() && (#[trigger] self.layers[l]).kind.spec_is_physics_class()
    }

    pub open spec fn wf(self) -> bool {
        forall|l: int| 0 <= l < self.layers.len() ==> (#[trigger] self.layers[l]).wf()
    }
}

/// A map document: an ordered list of groups.
#[derive(Debug, Clone, PartialEq, Eq)]
pub struct Document {
    pub groups: Vec<Group>,
}

pub struct DocView {
    pub groups: Seq<GroupView>,
}

impl View for Document {
    type V = DocView;

    open spec fn view(&self) -> DocView {
        DocView { groups: self.groups@.map_values(|g: Group| g@) }
    }
}

impl DocView {
    pub open spec fn wf(self) -> bool {
        forall|g: int| 0 <= g < self.groups.len() ==> (#[trigger] self.groups[g]).wf()
    }
}

impl Layer {
    pub fn duplicate(&self) -> (r: Layer)
        ensures
            r@ == self@,
    {
        let grid = match &self.grid {
            Some(g) => Some(g.duplicate()),
            None => None,
        };
        let extra = match &self.extra {
            Some(x) => Some(x.clone()),
            None => None,
        };
        Layer { kind: self.kind, name: self.name.clone(), color: self.color, grid, extra }
    }
}

impl Group {
    pub fn duplicate(&self) -> (r: Group)
        ensures
            r@ == self@,
    {
        let mut layers: Vec<Layer> = Vec::new();
        let mut i: usize = 0;
        while i < self.layers.len()
            invariant
                i <= self.layers@.len(),
                layers@.len() == i,
                forall|k: int| 0 <= k < i ==> #[trigger] layers@[k]@ == self.layers@[k]@,
            decreases self.layers@.len() - i,
        {
            layers.push(self.layers[i].duplicate());
            i = i + 1;
        }
        let r = Group {
            name: self.name.clone(),
            offset_x: self.offset_x,
            offset_y: self.offset_y,
            parallax_x: self.parallax_x,
            parallax_y: self.parallax_y,
            clip: self.clip,
            layers,
        };
        assert(r@.layers =~= self@.layers);
        r
    }
}

impl Document {
    /// An independent copy of the whole document.
    pub fn duplicate(&self) -> (r: Document)
        ensures
            r@ == self@,
    {
        let mut groups: Vec<Group> = Vec::new();
        let mut i: usize = 0;
        while i < self.groups.len()
            invariant
                i <= self.groups@.len(),
                groups@.len() == i,
                forall|k: int| 0 <= k < i ==> #[trigger] groups@[k]@ == self.groups@[k]@,
            decreases self.groups@.len() - i,
        {
            groups.push(self.groups[i].duplicate());
            i = i + 1;
        }
        let r = Document { groups };
        assert(r@.groups =~= self@.groups);
        r
    }
}

} // verus!
