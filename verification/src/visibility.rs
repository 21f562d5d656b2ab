use vstd::prelude::*;
use vstd::math::abs;
use vstd::math::max;
use crate::coord::Coord;
use crate::grid::Grid;
use crate::tile::Tile;

verus! {

/// Per-cell fog-of-war classification. `Invisible` cells were never seen,
/// `Visible` cells are in sight this turn, `PreviouslyVisible` cells were
/// seen on an earlier turn.
#[derive(Clone, Copy, PartialEq, Eq, Structural, Debug)]
pub enum Visibility {
    Invisible,
    Visible,
    PreviouslyVisible,
}

/// How far the player sees, in cells.
pub const VISION_RADIUS: i32 = 10;

/// The discrete line that Bresenham rasterization draws from `a` to `b`,
/// including both endpoints.
pub uninterp spec fn bresenham_points(a: (i32, i32), b: (i32, i32)) -> Seq<(i32, i32)>;

/// Relies on line_drawing's Bresenham iterator: it yields the rasterized
/// line from `a` to `b` including both endpoints, stepping through
/// exactly `1 + max(|dx|, |dy|)` points, the first of which is `a` and
/// the last of which is `b`. The coordinate margins keep the iterator's
/// octant transforms and stepping free of overflow.
#[verifier::external_body]
fn bresenham_line(a: (i32, i32), b: (i32, i32)) -> (r: Vec<(i32, i32)>)
    requires
        i32::MIN + 2 <= a.0 <= i32::MAX - 1,
        i32::MIN + 2 <= a.1 <= i32::MAX - 1,
        i32::MIN + 2 <= b.0 <= i32::MAX - 1,
        i32::MIN + 2 <= b.1 <= i32::MAX - 1,
        -100 <= a.0 - b.0 <= 100,
        -100 <= a.1 - b.1 <= 100,
    ensures
        r@ == bresenham_points(a, b),
        r@.len() == 1 + max(abs(a.0 - b.0) as int, abs(a.1 - b.1) as int),
        r@[0] == a,
        r@[r@.len() - 1] == b,
{
    line_drawing::Bresenham::new(a, b).collect()
}

/// An in-bounds sample point whose terrain stops sight.
pub open spec fn sight_blocked_at(tiles: &Grid<Tile>, q: (i32, i32)) -> bool {
    let c = Coord { x: q.0, y: q.1 };
    tiles.in_bounds(c) && tiles.spec_get(c).tag.spec_blocks_sight()
}

/// Clear line of sight from `from` to `to`: no strictly intermediate
/// point of the rasterized line has sight-blocking terrain. Neither
/// endpoint is ever tested, so terrain at the endpoints cannot hide them.
pub open spec fn line_clear(tiles: &Grid<Tile>, from: Coord, to: Coord) -> bool {
    from == to || {
        let pts = bresenham_points((from.x, from.y), (to.x, to.y));
        forall|i: int| 0 < i < pts.len() - 1 ==> !sight_blocked_at(tiles, #[trigger] pts[i])
    }
}

/// Whether the player standing at `player` sees the cell `c`: within the
/// vision radius, with a clear line of sight.
pub open spec fn sees(tiles: &Grid<Tile>, player: Coord, c: Coord) -> bool {
    c.dist2(player) <= VISION_RADIUS * VISION_RADIUS && line_clear(tiles, c, player)
}

/// Casts the ray from `from` to `to` and tests every strictly
/// intermediate cell for sight-blocking terrain.
pub fn is_line_clear(tiles: &Grid<Tile>, from: Coord, to: Coord) -> (b: bool)
    requires
        tiles.wf(),
        i32::MIN + 2 <= from.x <= i32::MAX - 1,
        i32::MIN + 2 <= from.y <= i32::MAX - 1,
        i32::MIN + 2 <= to.x <= i32::MAX - 1,
        i32::MIN + 2 <= to.y <= i32::MAX - 1,
        -100 <= from.x - to.x <= 100,
        -100 <= from.y - to.y <= 100,
    ensures
        b == line_clear(tiles, from, to),
{
    if from.x == to.x && from.y == to.y {
        return true;
    }
    let pts = bresenham_line((from.x, from.y), (to.x, to.y));
    let ghost gpts = bresenham_points((from.x, from.y), (to.x, to.y));
    let end = pts.len() - 1;
    let mut i: usize = 1;
    while i < end
        invariant
            tiles.wf(),
            from != to,
            pts@ == gpts,
            gpts == bresenham_points((from.x, from.y), (to.x, to.y)),
            end == pts@.len() - 1,
            1 <= i <= end || (end == 0 && i == 1),
            forall|j: int| 0 < j < i ==> !sight_blocked_at(tiles, #[trigger] gpts[j]),
        decreases end - i,
    {
        let q = pts[i];
        let qc = Coord { x: q.0, y: q.1 };
        match tiles.get(qc) {
            Some(t) => {
                if t.tag.blocks_sight() {
                    proof {
                        assert(sight_blocked_at(tiles, gpts[i as int]));
                        assert(0 < (i as int) && (i as int) < gpts.len() - 1);
                        assert(from != to);
                        assert(!line_clear(tiles, from, to));
                    }
                    return false;
                }
            },
            None => {},
        }
        i = i + 1;
    }
    true
}

/// One reset step for a single cell: a visible cell fades to previously
/// visible; other states are untouched.
pub open spec fn fade(v: Visibility) -> Visibility {
    if v is Visible {
        Visibility::PreviouslyVisible
    } else {
        v
    }
}

/// The state of a single cell after a whole turn's visibility pass
/// (reset, then recompute): seen cells become visible, all others keep
/// their faded prior state.
pub open spec fn cell_after_turn(v: Visibility, seen: bool) -> Visibility {
    if seen {
        Visibility::Visible
    } else {
        fade(v)
    }
}

/// The reset sub-step over the whole grid: every currently visible cell
/// downgrades to previously visible; nothing else changes.
pub fn reset_visibility(vis: &mut Grid<Visibility>)
    requires
        old(vis).wf(),
    ensures
        final(vis).wf(),
        final(vis).spec_width() == old(vis).spec_width(),
        final(vis).spec_height() == old(vis).spec_height(),
        forall|c: Coord|
            final(vis).in_bounds(c) ==> final(vis).spec_get(c) == fade(
                #[trigger] old(vis).spec_get(c),
            ),
{
    let f = |c: Coord, v: Visibility| -> (nv: Visibility)
        ensures
            nv == fade(v),
        {
            match v {
                Visibility::Visible => Visibility::PreviouslyVisible,
                _ => v,
            }
        };
    let g = Grid::map_with_coord(vis, f);
    *vis = g;
}

/// The recompute sub-step: every in-bounds cell the player sees becomes
/// visible; every other cell keeps its current state.
pub fn update_visibility(tiles: &Grid<Tile>, player: Coord, vis: &mut Grid<Visibility>)
    requires
        tiles.wf(),
        old(vis).wf(),
        old(vis).spec_width() == tiles.spec_width(),
        old(vis).spec_height() == tiles.spec_height(),
        tiles.in_bounds(player),
    ensures
        final(vis).wf(),
        final(vis).spec_width() == old(vis).spec_width(),
        final(vis).spec_height() == old(vis).spec_height(),
        forall|c: Coord|
            final(vis).in_bounds(c) ==> final(vis).spec_get(c) == (if sees(tiles, player, c) {
                Visibility::Visible
            } else {
                #[trigger] old(vis).spec_get(c)
            }),
{
    let f = |c: Coord, v: Visibility| -> (nv: Visibility)
        requires
            tiles.wf(),
            tiles.in_bounds(c),
            tiles.in_bounds(player),
        ensures
            nv == (if sees(tiles, player, c) {
                Visibility::Visible
            } else {
                v
            }),
        {
            proof {
                tiles.lemma_wf_dims();
            }
            let ddx = (c.x as i64) - (player.x as i64);
            let ddy = (c.y as i64) - (player.y as i64);
            proof {
                assert(0 <= ddx * ddx <= 0x3fff_ffff_0000_0001) by (nonlinear_arith)
                    requires
                        -0x7fff_ffff <= ddx <= 0x7fff_ffff,
                ;
                assert(0 <= ddy * ddy <= 0x3fff_ffff_0000_0001) by (nonlinear_arith)
                    requires
                        -0x7fff_ffff <= ddy <= 0x7fff_ffff,
                ;
            }
            let d2 = ddx * ddx + ddy * ddy;
            if d2 <= 100 {
                proof {
                    assert(-10 <= ddx <= 10 && -10 <= ddy <= 10) by (nonlinear_arith)
                        requires
                            ddx * ddx + ddy * ddy <= 100,
                    ;
                }
                if is_line_clear(tiles, c, player) {
                    Visibility::Visible
                } else {
                    v
                }
            } else {
                v
            }
        };
    let g = Grid::map_with_coord(vis, f);
    *vis = g;
}

/// The player's own cell is seen whenever visibility is recomputed,
/// whatever its own terrain: its distance to the player is zero and no
/// cell stands strictly between a cell and itself.
pub proof fn lemma_center_self_visible(tiles: &Grid<Tile>, player: Coord, v: Visibility)
    ensures
        sees(tiles, player, player),
        cell_after_turn(v, sees(tiles, player, player)) == Visibility::Visible,
{
}

/// The radius boundary is exact: with clear sight, a cell at squared
/// distance up to the squared radius becomes visible, while a cell
/// beyond it keeps its faded prior state and in particular is not
/// visible, clear sight or not.
pub proof fn lemma_radius_boundary(tiles: &Grid<Tile>, player: Coord, c: Coord, v: Visibility)
    ensures
        c.dist2(player) <= VISION_RADIUS * VISION_RADIUS && line_clear(tiles, c, player)
            ==> cell_after_turn(v, sees(tiles, player, c)) == Visibility::Visible,
        c.dist2(player) > VISION_RADIUS * VISION_RADIUS ==> cell_after_turn(
            v,
            sees(tiles, player, c),
        ) == fade(v) && cell_after_turn(v, sees(tiles, player, c)) != Visibility::Visible,
{
}

/// Exploration memory never regresses within a turn: a cell that is not
/// invisible before the turn's visibility pass is not invisible after it.
pub proof fn lemma_visibility_monotonic(v: Visibility, seen: bool)
    ensures
        v != Visibility::Invisible ==> cell_after_turn(v, seen) != Visibility::Invisible,
{
}

/// The state of a single cell after a sequence of turns whose visibility
/// passes saw it as `seen` records.
pub open spec fn cell_after_turns(v: Visibility, seen: Seq<bool>) -> Visibility
    decreases seen.len(),
{
    if seen.len() == 0 {
        v
    } else {
        cell_after_turns(cell_after_turn(v, seen[0]), seen.skip(1))
    }
}

/// Exploration memory never regresses over any number of turns: once a
/// cell is visible (or previously visible), no later turn makes it
/// invisible again.
pub proof fn lemma_visibility_memory(v: Visibility, seen: Seq<bool>)
    ensures
        v != Visibility::Invisible ==> cell_after_turns(v, seen) != Visibility::Invisible,
    decreases seen.len(),
{
    if seen.len() > 0 {
        lemma_visibility_monotonic(v, seen[0]);
        lemma_visibility_memory(cell_after_turn(v, seen[0]), seen.skip(1));
    }
}

} // verus!
