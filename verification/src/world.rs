use vstd::prelude::*;
use vstd::arithmetic::div_mod::lemma_fundamental_div_mod;
use crate::coord::Coord;
use crate::grid::Grid;
use crate::grid::row_major_coord;
use crate::tile::Image;
use crate::tile::Rotation;
use crate::tile::Tile;
use crate::tile::is_egg_label;
use crate::tile::label_to_tag;
use crate::tile::parse_is_egg;
use crate::tile::parse_label;
use crate::visibility::Visibility;

verus! {

/// One record of the serialized map: a terrain label string plus the
/// artwork rotation and atlas subsection to draw the cell with.
pub struct TileLabel {
    pub label: String,
    pub rotation: Rotation,
    pub subsection: (u32, u32),
}

/// An item or hazard that lives on the map for a limited number of
/// turns: it sits on a cell, may occupy it against movement, and counts
/// down one life point per turn.
#[derive(Clone, Copy, PartialEq, Eq, Structural, Debug)]
pub struct DynamicEntity {
    pub position: Coord,
    pub image: Image,
    pub blocks_movement: bool,
    pub counter: u8,
}

/// The player singleton: a position on the terrain grid.
#[derive(Clone, Copy, PartialEq, Eq, Structural, Debug)]
pub struct Player {
    pub position: Coord,
}

/// The number of turns a freshly spawned egg lives.
pub const EGG_LIFETIME: u8 = 255;

/// The entity an egg spawn point registers.
pub open spec fn spawned_egg(c: Coord) -> DynamicEntity {
    DynamicEntity { position: c, image: Image::Egg, blocks_movement: true, counter: EGG_LIFETIME }
}

/// The egg entities the first `n` cells of the label grid register, in
/// row-major order.
pub open spec fn egg_spawns(map: &Grid<TileLabel>, n: int) -> Seq<DynamicEntity>
    decreases n,
{
    if n <= 0 {
        Seq::empty()
    } else {
        let c = map.coord_at(n - 1);
        let prev = egg_spawns(map, n - 1);
        if is_egg_label(map.spec_get(c).label@) {
            prev.push(spawned_egg(c))
        } else {
            prev
        }
    }
}

/// Every spawned egg starts fully alive: it occupies its cell and its
/// counter holds the whole lifetime.
pub proof fn lemma_egg_spawns_fresh(map: &Grid<TileLabel>, n: int)
    ensures
        forall|i: int|
            0 <= i < egg_spawns(map, n).len() ==> {
                &&& (#[trigger] egg_spawns(map, n)[i]).counter == EGG_LIFETIME
                &&& egg_spawns(map, n)[i].blocks_movement
                &&& egg_spawns(map, n)[i].image is Egg
            },
    decreases n,
{
    if n > 0 {
        lemma_egg_spawns_fresh(map, n - 1);
    }
}

/// Whether every label in the map belongs to the recognized set.
pub open spec fn all_labels_known(map: &Grid<TileLabel>) -> bool {
    forall|c: Coord|
        map.in_bounds(c) ==> label_to_tag((#[trigger] map.spec_get(c)).label@) is Some
}

/// The tile a recognized label record resolves to.
pub open spec fn tile_of_label(l: TileLabel) -> Tile {
    Tile { tag: label_to_tag(l.label@).unwrap(), rotation: l.rotation }
}

/// Transforms a serialized label grid into the immutable terrain grid
/// and the initial dynamic entity set, in a single pass. A label outside
/// the recognized set makes the whole load fail; there is no partial
/// result.
pub fn load_world(map: &Grid<TileLabel>) -> (r: Option<(Grid<Tile>, Vec<DynamicEntity>)>)
    requires
        map.wf(),
    ensures
        r is Some <==> all_labels_known(map),
        r matches Some((tiles, ents)) ==> {
            &&& tiles.wf()
            &&& tiles.spec_width() == map.spec_width()
            &&& tiles.spec_height() == map.spec_height()
            &&& forall|c: Coord|
                tiles.in_bounds(c) ==> #[trigger] tiles.spec_get(c) == tile_of_label(
                    map.spec_get(c),
                )
            &&& ents@ == egg_spawns(map, map.spec_width() * map.spec_height())
        },
{
    let width = map.width();
    let height = map.height();
    proof {
        map.lemma_wf_dims();
    }
    let mut cells: Vec<Tile> = Vec::new();
    let mut ents: Vec<DynamicEntity> = Vec::new();
    let mut k: usize = 0;
    let total = width * height;
    while k < total
        invariant
            map.wf(),
            width == map.spec_width(),
            height == map.spec_height(),
            width <= 0x7fff_ffff,
            height <= 0x7fff_ffff,
            total == width * height,
            k <= total,
            cells@.len() == k,
            forall|i: int|
                0 <= i < k ==> label_to_tag(
                    (#[trigger] map.spec_get(row_major_coord(width as int, i))).label@,
                ) is Some,
            forall|i: int|
                0 <= i < k ==> #[trigger] cells@[i] == tile_of_label(
                    map.spec_get(row_major_coord(width as int, i)),
                ),
            ents@ == egg_spawns(map, k as int),
        decreases total - k,
    {
        proof {
            assert(width > 0) by (nonlinear_arith)
                requires
                    k < total,
                    total == width * height,
                    k >= 0,
            ;
            lemma_fundamental_div_mod(k as int, width as int);
            assert((k as int) / (width as int) < height as int) by (nonlinear_arith)
                requires
                    k < width * height,
                    width > 0,
                    k as int == (width as int) * ((k as int) / (width as int)) + (k as int) % (
                    width as int),
                    0 <= (k as int) % (width as int) < width as int,
            ;
        }
        let x = k % width;
        let y = k / width;
        let c = Coord { x: x as i32, y: y as i32 };
        let lbl = map.get_checked(c);
        let tag = match parse_label(&lbl.label) {
            Some(tag) => tag,
            None => {
                proof {
                    assert(map.in_bounds(c) && !(label_to_tag(map.spec_get(c).label@) is Some));
                    assert(!all_labels_known(map));
                }
                return None;
            },
        };
        if parse_is_egg(&lbl.label) {
            ents.push(DynamicEntity {
                position: c,
                image: Image::Egg,
                blocks_movement: true,
                counter: EGG_LIFETIME,
            });
        }
        cells.push(Tile { tag, rotation: lbl.rotation });
        k = k + 1;
    }
    let tiles = Grid::from_parts(width, height, cells);
    proof {
        assert forall|c: Coord| tiles.in_bounds(c) implies tiles.spec_get(c) == tile_of_label(
            map.spec_get(c),
        ) by {
            tiles.lemma_index_bijective(c);
        }
        assert forall|c: Coord| map.in_bounds(c) implies label_to_tag(
            map.spec_get(c).label@,
        ) is Some by {
            map.lemma_index_bijective(c);
        }
    }
    Some((tiles, ents))
}

/// Whether some movement-blocking entity stands on `c`.
pub open spec fn occupied(ents: Seq<DynamicEntity>, c: Coord) -> bool {
    exists|i: int|
        0 <= i < ents.len() && (#[trigger] ents[i]).blocks_movement && ents[i].position == c
}

/// Linear scan for a movement-blocking entity at an exact coordinate.
pub fn occupying_entity_at(ents: &Vec<DynamicEntity>, c: Coord) -> (b: bool)
    ensures
        b == occupied(ents@, c),
{
    let mut i: usize = 0;
    while i < ents.len()
        invariant
            i <= ents@.len(),
            forall|j: int|
                0 <= j < i ==> !((#[trigger] ents@[j]).blocks_movement && ents@[j].position == c),
        decreases ents@.len() - i,
    {
        let e = ents[i];
        if e.blocks_movement && e.position.x == c.x && e.position.y == c.y {
            return true;
        }
        i = i + 1;
    }
    false
}

/// The whole simulation state: the immutable terrain grid, the parallel
/// fog-of-war grid, the dynamic entity set and the player.
pub struct WorldState {
    pub tiles: Grid<Tile>,
    pub visibility: Grid<Visibility>,
    pub entities: Vec<DynamicEntity>,
    pub player: Player,
}

impl WorldState {
    /// Well-formed: the visibility grid parallels the terrain grid, the
    /// player stands on the grid, and no entity's counter has run out.
    pub open spec fn wf(&self) -> bool {
        &&& self.tiles.wf()
        &&& self.visibility.wf()
        &&& self.visibility.spec_width() == self.tiles.spec_width()
        &&& self.visibility.spec_height() == self.tiles.spec_height()
        &&& self.tiles.in_bounds(self.player.position)
        &&& forall|i: int|
            0 <= i < self.entities@.len() ==> (#[trigger] self.entities@[i]).counter >= 1
    }

    /// Assembles a freshly loaded world: the given terrain and entities,
    /// the player at the start position, and an all-invisible fog grid.
    pub fn new(tiles: Grid<Tile>, entities: Vec<DynamicEntity>, start: Coord) -> (w: WorldState)
        requires
            tiles.wf(),
            tiles.in_bounds(start),
            forall|i: int| 0 <= i < entities@.len() ==> (#[trigger] entities@[i]).counter >= 1,
        ensures
            w.wf(),
            w.tiles == tiles,
            w.entities == entities,
            w.player.position == start,
            forall|c: Coord|
                w.visibility.in_bounds(c) ==> #[trigger] w.visibility.spec_get(c)
                    == Visibility::Invisible,
    {
        let f = |_c: Coord, _t: Tile| -> (v: Visibility)
            ensures
                v == Visibility::Invisible,
            {
                Visibility::Invisible
            };
        let visibility = Grid::map_with_coord(&tiles, f);
        WorldState { tiles, visibility, entities, player: Player { position: start } }
    }
}

} // verus!
