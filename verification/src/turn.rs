use vstd::prelude::*;
use crate::coord::Coord;
use crate::visibility::cell_after_turn;
use crate::visibility::reset_visibility;
use crate::visibility::sees;
use crate::visibility::update_visibility;
use crate::world::DynamicEntity;
use crate::world::EGG_LIFETIME;
use crate::world::WorldState;
use crate::world::occupied;
use crate::world::occupying_entity_at;

verus! {

/// The eight compass directions plus standing still.
#[derive(Clone, Copy, PartialEq, Eq, Structural, Debug)]
pub enum MovementDirection {
    Up,
    Down,
    Left,
    Right,
    UpLeft,
    UpRight,
    DownLeft,
    DownRight,
    StandStill,
}

impl MovementDirection {
    /// The unit (or zero) step this direction takes; north is negative y.
    pub open spec fn spec_delta(self) -> Coord {
        match self {
            MovementDirection::Up => Coord { x: 0i32, y: -1i32 },
            MovementDirection::Down => Coord { x: 0i32, y: 1i32 },
            MovementDirection::Left => Coord { x: -1i32, y: 0i32 },
            MovementDirection::Right => Coord { x: 1i32, y: 0i32 },
            MovementDirection::UpLeft => Coord { x: -1i32, y: -1i32 },
            MovementDirection::UpRight => Coord { x: 1i32, y: -1i32 },
            MovementDirection::DownLeft => Coord { x: -1i32, y: 1i32 },
            MovementDirection::DownRight => Coord { x: 1i32, y: 1i32 },
            MovementDirection::StandStill => Coord { x: 0i32, y: 0i32 },
        }
    }

    pub fn relative_coord(&self) -> (d: Coord)
        ensures
            d == self.spec_delta(),
    {
        match self {
            MovementDirection::Up => Coord::new(0, -1),
            MovementDirection::Down => Coord::new(0, 1),
            MovementDirection::Left => Coord::new(-1, 0),
            MovementDirection::Right => Coord::new(1, 0),
            MovementDirection::UpLeft => Coord::new(-1, -1),
            MovementDirection::UpRight => Coord::new(1, -1),
            MovementDirection::DownLeft => Coord::new(-1, 1),
            MovementDirection::DownRight => Coord::new(1, 1),
            MovementDirection::StandStill => Coord::new(0, 0),
        }
    }
}

/// What one aging tick makes of a single entity: the counter falls by
/// one, and an entity whose counter thereby runs out is removed.
pub open spec fn age_entity(e: DynamicEntity) -> Option<DynamicEntity> {
    if e.counter > 1 {
        Some(DynamicEntity { counter: (e.counter - 1) as u8, ..e })
    } else {
        None
    }
}

/// The entity set after one aging tick, order preserved.
pub open spec fn aged_once(ents: Seq<DynamicEntity>) -> Seq<DynamicEntity>
    decreases ents.len(),
{
    if ents.len() == 0 {
        Seq::empty()
    } else {
        let rest = aged_once(ents.drop_last());
        match age_entity(ents.last()) {
            Some(e) => rest.push(e),
            None => rest,
        }
    }
}

/// The entity set after `k` aging ticks.
pub open spec fn aged(ents: Seq<DynamicEntity>, k: nat) -> Seq<DynamicEntity>
    decreases k,
{
    if k == 0 {
        ents
    } else {
        aged_once(aged(ents, (k - 1) as nat))
    }
}

/// What `k` ticks make of a single entity.
pub open spec fn age_entity_by(e: DynamicEntity, k: nat) -> Option<DynamicEntity> {
    if e.counter > k {
        Some(DynamicEntity { counter: (e.counter - k) as u8, ..e })
    } else {
        None
    }
}

/// The entities whose counters outlive `k` ticks, in order, each aged by
/// `k`: the entity-wise description of repeated aging.
pub open spec fn aged_by(ents: Seq<DynamicEntity>, k: nat) -> Seq<DynamicEntity>
    decreases ents.len(),
{
    if ents.len() == 0 {
        Seq::empty()
    } else {
        let rest = aged_by(ents.drop_last(), k);
        match age_entity_by(ents.last(), k) {
            Some(e) => rest.push(e),
            None => rest,
        }
    }
}

/// Decrements every entity's counter and removes those that thereby
/// reach zero; nobody later in the turn sees a spent entity.
pub fn age_entities(ents: &mut Vec<DynamicEntity>)
    ensures
        final(ents)@ == aged_once(old(ents)@),
{
    let ghost orig = ents@;
    let mut result: Vec<DynamicEntity> = Vec::new();
    let mut i: usize = 0;
    while i < ents.len()
        invariant
            ents@ == orig,
            i <= orig.len(),
            result@ == aged_once(orig.take(i as int)),
        decreases orig.len() - i,
    {
        proof {
            lemma_aged_once_take_succ(orig, i as int);
        }
        let e = ents[i];
        if e.counter > 1 {
            result.push(DynamicEntity { counter: e.counter - 1, ..e });
        }
        i = i + 1;
    }
    proof {
        assert(orig.take(orig.len() as int) =~= orig);
    }
    *ents = result;
}

/// One more processed entity extends the aged prefix by what that
/// entity ages to.
proof fn lemma_aged_once_take_succ(ents: Seq<DynamicEntity>, i: int)
    requires
        0 <= i < ents.len(),
    ensures
        aged_once(ents.take(i + 1)) == (match age_entity(ents[i]) {
            Some(e) => aged_once(ents.take(i)).push(e),
            None => aged_once(ents.take(i)),
        }),
{
    assert(ents.take(i + 1).drop_last() =~= ents.take(i));
    assert(ents.take(i + 1).last() == ents[i]);
}

/// No spent entity survives an aging tick: every entity that comes out
/// of one still has life left.
pub proof fn lemma_aged_once_counters(ents: Seq<DynamicEntity>)
    ensures
        forall|i: int|
            0 <= i < aged_once(ents).len() ==> (#[trigger] aged_once(ents)[i]).counter >= 1,
    decreases ents.len(),
{
    if ents.len() > 0 {
        lemma_aged_once_counters(ents.drop_last());
    }
}

impl WorldState {
    /// The x coordinate a direction leads to from the player's position.
    pub open spec fn move_target_x(&self, dir: MovementDirection) -> int {
        self.player.position.x + dir.spec_delta().x
    }

    /// The y coordinate a direction leads to from the player's position.
    pub open spec fn move_target_y(&self, dir: MovementDirection) -> int {
        self.player.position.y + dir.spec_delta().y
    }

    /// Whether the cell a direction leads to exists on the terrain grid.
    pub open spec fn target_in_bounds(&self, dir: MovementDirection) -> bool {
        &&& 0 <= self.move_target_x(dir) < self.tiles.spec_width()
        &&& 0 <= self.move_target_y(dir) < self.tiles.spec_height()
    }

    /// The cell a direction leads to, as a coordinate (meaningful when
    /// it is in bounds).
    pub open spec fn move_target(&self, dir: MovementDirection) -> Coord {
        Coord { x: self.move_target_x(dir) as i32, y: self.move_target_y(dir) as i32 }
    }

    /// Whether a directional move resolves: the destination exists, its
    /// terrain permits movement, and no occupying entity stands on it.
    pub open spec fn move_allowed(&self, dir: MovementDirection) -> bool {
        &&& self.target_in_bounds(dir)
        &&& !self.tiles.spec_get(self.move_target(dir)).tag.spec_blocks_movement()
        &&& !occupied(self.entities@, self.move_target(dir))
    }

    /// Attempts to move the player one step. Standing still succeeds
    /// with no state change; a directional move succeeds exactly when it
    /// is allowed, moving only the player; a rejected move changes
    /// nothing at all.
    pub fn try_to_move_player(&mut self, direction: MovementDirection) -> (moved: bool)
        requires
            old(self).wf(),
        ensures
            final(self).wf(),
            final(self).tiles == old(self).tiles,
            final(self).visibility == old(self).visibility,
            final(self).entities == old(self).entities,
            direction == MovementDirection::StandStill ==> moved && *final(self) == *old(self),
            direction != MovementDirection::StandStill ==> {
                &&& moved == old(self).move_allowed(direction)
                &&& (moved ==> final(self).player.position == old(self).move_target(direction))
                &&& (!moved ==> *final(self) == *old(self))
            },
    {
        if matches!(direction, MovementDirection::StandStill) {
            return true;
        }
        let delta = direction.relative_coord();
        proof {
            self.tiles.lemma_wf_dims();
        }
        let nx = (self.player.position.x as i64) + (delta.x as i64);
        let ny = (self.player.position.y as i64) + (delta.y as i64);
        let w = self.tiles.width();
        let h = self.tiles.height();
        if nx < 0 || ny < 0 || nx >= (w as i64) || ny >= (h as i64) {
            return false;
        }
        let nc = Coord { x: nx as i32, y: ny as i32 };
        let tile = self.tiles.get_checked(nc);
        if tile.tag.blocks_movement() {
            return false;
        }
        if occupying_entity_at(&self.entities, nc) {
            return false;
        }
        self.player.position = nc;
        true
    }

    /// The fixed per-turn pipeline, run only when a turn advances: age
    /// the dynamic entities, then fade and recompute visibility around
    /// the player. Terrain and player position are untouched.
    pub fn run_turn(&mut self)
        requires
            old(self).wf(),
        ensures
            final(self).wf(),
            final(self).tiles == old(self).tiles,
            final(self).player == old(self).player,
            final(self).entities@ == aged_once(old(self).entities@),
            final(self).visibility.spec_width() == old(self).visibility.spec_width(),
            final(self).visibility.spec_height() == old(self).visibility.spec_height(),
            forall|c: Coord|
                final(self).visibility.in_bounds(c) ==> final(self).visibility.spec_get(c)
                    == cell_after_turn(
                    #[trigger] old(self).visibility.spec_get(c),
                    sees(&old(self).tiles, old(self).player.position, c),
                ),
    {
        age_entities(&mut self.entities);
        proof {
            lemma_aged_once_counters(old(self).entities@);
        }
        reset_visibility(&mut self.visibility);
        update_visibility(&self.tiles, self.player.position, &mut self.visibility);
    }

    /// The sole mutating entry point input drives: resolve the movement
    /// request, and advance the turn pipeline exactly when the action is
    /// accepted. Standing still always counts as an accepted action; a
    /// rejected directional move leaves the whole world untouched.
    pub fn take_turn(&mut self, direction: MovementDirection) -> (advanced: bool)
        requires
            old(self).wf(),
        ensures
            final(self).wf(),
            advanced == (direction == MovementDirection::StandStill || old(self).move_allowed(
                direction,
            )),
            !advanced ==> *final(self) == *old(self),
            advanced ==> {
                &&& final(self).tiles == old(self).tiles
                &&& final(self).player.position == (if direction == MovementDirection::StandStill {
                    old(self).player.position
                } else {
                    old(self).move_target(direction)
                })
                &&& final(self).entities@ == aged_once(old(self).entities@)
                &&& final(self).visibility.spec_width() == old(self).visibility.spec_width()
                &&& final(self).visibility.spec_height() == old(self).visibility.spec_height()
                &&& forall|c: Coord|
                    final(self).visibility.in_bounds(c) ==> final(self).visibility.spec_get(c)
                        == cell_after_turn(
                        #[trigger] old(self).visibility.spec_get(c),
                        sees(&old(self).tiles, final(self).player.position, c),
                    )
            },
    {
        let moved = self.try_to_move_player(direction);
        if moved {
            self.run_turn();
        }
        moved
    }
}

/// Aging zero ticks changes nothing, provided no entity's counter has
/// already run out.
proof fn lemma_aged_by_zero(ents: Seq<DynamicEntity>)
    requires
        forall|i: int| 0 <= i < ents.len() ==> (#[trigger] ents[i]).counter >= 1,
    ensures
        aged_by(ents, 0) == ents,
    decreases ents.len(),
{
    if ents.len() == 0 {
        assert(aged_by(ents, 0) =~= ents);
    } else {
        let rest = ents.drop_last();
        let last = ents.last();
        lemma_aged_by_zero(rest);
        assert(age_entity_by(last, 0) == Some(last));
        assert(aged_by(ents, 0) =~= ents);
    }
}

/// One aging tick after `k` ticks acts like `k + 1` ticks.
proof fn lemma_aged_once_compose(ents: Seq<DynamicEntity>, k: nat)
    ensures
        aged_once(aged_by(ents, k)) == aged_by(ents, (k + 1) as nat),
    decreases ents.len(),
{
    if ents.len() == 0 {
    } else {
        let rest = ents.drop_last();
        let last = ents.last();
        lemma_aged_once_compose(rest, k);
        match age_entity_by(last, k) {
            Some(e1) => {
                let base = aged_by(rest, k);
                assert(aged_by(ents, k) == base.push(e1));
                assert(base.push(e1).drop_last() =~= base);
                assert(base.push(e1).last() == e1);
            },
            None => {
                assert(aged_by(ents, k) == aged_by(rest, k));
            },
        }
    }
}

/// Repeated aging acts entity by entity: after `k` ticks exactly the
/// entities whose counter exceeded `k` remain, in their original order,
/// each with its counter reduced by `k`.
pub proof fn lemma_aging_repeated(ents: Seq<DynamicEntity>, k: nat)
    requires
        forall|i: int| 0 <= i < ents.len() ==> (#[trigger] ents[i]).counter >= 1,
    ensures
        aged(ents, k) == aged_by(ents, k),
    decreases k,
{
    if k == 0 {
        lemma_aged_by_zero(ents);
    } else {
        lemma_aging_repeated(ents, (k - 1) as nat);
        lemma_aged_once_compose(ents, (k - 1) as nat);
    }
}

/// An entity that `k` ticks still leave alive stands in the aged set.
proof fn lemma_aged_by_contains(ents: Seq<DynamicEntity>, i: int, k: nat)
    requires
        0 <= i < ents.len(),
        age_entity_by(ents[i], k) is Some,
    ensures
        aged_by(ents, k).contains(age_entity_by(ents[i], k).unwrap()),
    decreases ents.len(),
{
    let rest = ents.drop_last();
    let last = ents.last();
    if i == ents.len() - 1 {
        match age_entity_by(last, k) {
            Some(e1) => {
                let base = aged_by(rest, k);
                assert(aged_by(ents, k)[base.len() as int] == e1);
            },
            None => {},
        }
    } else {
        lemma_aged_by_contains(rest, i, k);
        let e = age_entity_by(ents[i], k).unwrap();
        let j = choose|j: int| 0 <= j < aged_by(rest, k).len() && aged_by(rest, k)[j] == e;
        assert(aged_by(ents, k)[j] == e);
    }
}

/// Once `k` ticks outlast every counter, nothing remains.
proof fn lemma_aged_by_empty(ents: Seq<DynamicEntity>, k: nat)
    requires
        forall|i: int| 0 <= i < ents.len() ==> (#[trigger] ents[i]).counter <= k,
    ensures
        aged_by(ents, k).len() == 0,
    decreases ents.len(),
{
    if ents.len() > 0 {
        lemma_aged_by_empty(ents.drop_last(), k);
    }
}

/// The lifecycle of a dynamic entity is exact: an entity spawned with a
/// full-life counter is still in the set after every number of turn
/// pipelines short of that count, its counter reduced accordingly, and
/// once the count is reached the set holds no entity at all anymore, so
/// it occupies no cell for any occupancy check.
pub proof fn lemma_entity_lifecycle(ents: Seq<DynamicEntity>, i: int, k: nat)
    requires
        0 <= i < ents.len(),
        forall|j: int| 0 <= j < ents.len() ==> (#[trigger] ents[j]).counter >= 1,
    ensures
        k < ents[i].counter ==> aged(ents, k).contains(
            DynamicEntity { counter: (ents[i].counter - k) as u8, ..ents[i] },
        ),
        k >= EGG_LIFETIME ==> aged(ents, k).len() == 0 && (forall|c: Coord|
            !occupied(aged(ents, k), c)),
    decreases k,
{
    lemma_aging_repeated(ents, k);
    if k < ents[i].counter {
        lemma_aged_by_contains(ents, i, k);
    }
    if k >= EGG_LIFETIME {
        lemma_aged_by_empty(ents, k);
    }
}

/// Occupancy gates movement: on terrain that itself permits movement, a
/// move is rejected exactly while an occupying entity stands on the
/// destination, and resolves once the entity set no longer occupies it.
pub proof fn lemma_occupancy_blocks(s1: &WorldState, s2: &WorldState, dir: MovementDirection)
    requires
        s1.target_in_bounds(dir),
        !s1.tiles.spec_get(s1.move_target(dir)).tag.spec_blocks_movement(),
        occupied(s1.entities@, s1.move_target(dir)),
        s2.tiles == s1.tiles,
        s2.player == s1.player,
        !occupied(s2.entities@, s2.move_target(dir)),
    ensures
        !s1.move_allowed(dir),
        s2.move_allowed(dir),
{
}

} // verus!
