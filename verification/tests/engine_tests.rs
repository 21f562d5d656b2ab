use gridworld::Coord;
use gridworld::DynamicEntity;
use gridworld::Grid;
use gridworld::Image;
use gridworld::MovementDirection;
use gridworld::Rotation;
use gridworld::TileLabel;
use gridworld::Visibility;
use gridworld::WorldState;
use gridworld::world::load_world;

fn world_label(ch: u8) -> String {
    match ch {
        b'.' => "ground",
        b'#' => "cave_wall",
        b'e' => "egg",
        b'w' => "water",
        b'g' => "goop",
        _ => panic!("unexpected map character"),
    }
    .to_string()
}

fn world_from_rows(rows: &[&str], start: Coord) -> WorldState {
    let h = rows.len();
    let w = rows[0].len();
    let map: Grid<TileLabel> = Grid::construct(w, h, |c: Coord| TileLabel {
        label: world_label(rows[c.y as usize].as_bytes()[c.x as usize]),
        rotation: Rotation::Normal,
        subsection: (0, 0),
    });
    let (tiles, ents) = load_world(&map).unwrap();
    WorldState::new(tiles, ents, start)
}

fn vis_at(state: &WorldState, x: i32, y: i32) -> Visibility {
    *state.visibility.get(Coord::new(x, y)).unwrap()
}

#[test]
fn world_starts_all_invisible() {
    let state = world_from_rows(&[".....", ".....", "....."], Coord::new(2, 1));
    for y in 0..3 {
        for x in 0..5 {
            assert_eq!(vis_at(&state, x, y), Visibility::Invisible);
        }
    }
}

#[test]
fn visibility_center_always_visible() {
    // The player stands on sight-blocking terrain; its own cell is still
    // seen because the ray never tests its endpoints.
    let mut state = world_from_rows(&["###", "###", "###"], Coord::new(1, 1));
    state.run_turn();
    assert_eq!(vis_at(&state, 1, 1), Visibility::Visible);
}

#[test]
fn visibility_wall_blocks_sight_behind_it() {
    // Walls hide what lies behind them, while the wall itself is seen.
    let mut state = world_from_rows(&["..#......"], Coord::new(0, 0));
    state.run_turn();
    assert_eq!(vis_at(&state, 0, 0), Visibility::Visible);
    assert_eq!(vis_at(&state, 1, 0), Visibility::Visible);
    assert_eq!(vis_at(&state, 2, 0), Visibility::Visible);
    for x in 3..9 {
        assert_eq!(vis_at(&state, x, 0), Visibility::Invisible);
    }
}

#[test]
fn visibility_radius_boundary_exact() {
    let rows: Vec<String> = (0..14).map(|_| ".".repeat(30)).collect();
    let rows: Vec<&str> = rows.iter().map(|s| s.as_str()).collect();
    let mut state = world_from_rows(&rows, Coord::new(5, 5));
    state.run_turn();
    // squared distance exactly 100: visible
    assert_eq!(vis_at(&state, 15, 5), Visibility::Visible);
    assert_eq!(vis_at(&state, 11, 13), Visibility::Visible);
    // squared distance 101: stays invisible even with clear sight
    assert_eq!(vis_at(&state, 15, 6), Visibility::Invisible);
    // well beyond: invisible
    assert_eq!(vis_at(&state, 25, 5), Visibility::Invisible);
}

#[test]
fn visibility_memory_never_regresses() {
    let row = ".".repeat(40);
    let mut state = world_from_rows(&[row.as_str()], Coord::new(0, 0));
    state.run_turn();
    assert_eq!(vis_at(&state, 0, 0), Visibility::Visible);
    // Walk right until the starting cell falls out of the radius.
    for _ in 0..12 {
        assert!(state.take_turn(MovementDirection::Right));
        assert_ne!(vis_at(&state, 0, 0), Visibility::Invisible);
    }
    assert_eq!(state.player.position, Coord::new(12, 0));
    assert_eq!(vis_at(&state, 0, 0), Visibility::PreviouslyVisible);
    // A cell that was never seen is still invisible.
    assert_eq!(vis_at(&state, 30, 0), Visibility::Invisible);
}

#[test]
fn movement_blocked_by_terrain_changes_nothing() {
    let mut state = world_from_rows(&[".w.", "...", "e.."], Coord::new(0, 0));
    state.run_turn();
    let player_before = state.player.position;
    let entities_before = state.entities.clone();
    let vis_before = state.visibility.enumerate();
    assert!(!state.take_turn(MovementDirection::Right));
    assert_eq!(state.player.position, player_before);
    assert_eq!(state.entities, entities_before);
    assert_eq!(state.visibility.enumerate(), vis_before);
}

#[test]
fn movement_out_of_bounds_rejected() {
    let mut state = world_from_rows(&["...", "...", "..."], Coord::new(0, 1));
    assert!(!state.take_turn(MovementDirection::Left));
    assert_eq!(state.player.position, Coord::new(0, 1));
    assert!(!state.take_turn(MovementDirection::UpLeft));
    assert_eq!(state.player.position, Coord::new(0, 1));
}

#[test]
fn movement_all_directions() {
    let mut state = world_from_rows(&[".....", ".....", ".....", ".....", "....."], Coord::new(2, 2));
    assert!(state.take_turn(MovementDirection::UpRight));
    assert_eq!(state.player.position, Coord::new(3, 1));
    assert!(state.take_turn(MovementDirection::Down));
    assert_eq!(state.player.position, Coord::new(3, 2));
    assert!(state.take_turn(MovementDirection::DownLeft));
    assert_eq!(state.player.position, Coord::new(2, 3));
    assert!(state.take_turn(MovementDirection::Left));
    assert_eq!(state.player.position, Coord::new(1, 3));
    assert!(state.take_turn(MovementDirection::UpLeft));
    assert_eq!(state.player.position, Coord::new(0, 2));
    assert!(state.take_turn(MovementDirection::Up));
    assert_eq!(state.player.position, Coord::new(0, 1));
    assert!(state.take_turn(MovementDirection::Right));
    assert_eq!(state.player.position, Coord::new(1, 1));
    assert!(state.take_turn(MovementDirection::DownRight));
    assert_eq!(state.player.position, Coord::new(2, 2));
}

#[test]
fn occupancy_blocks_then_clears() {
    // The goop cell to the right carries an occupying entity about to
    // expire; movement there is rejected until it ages away.
    let (tiles, _) = {
        let map: Grid<TileLabel> = Grid::construct(3, 1, |_c: Coord| TileLabel {
            label: "ground".to_string(),
            rotation: Rotation::Normal,
            subsection: (0, 0),
        });
        load_world(&map).unwrap()
    };
    let ent = DynamicEntity {
        position: Coord::new(1, 0),
        image: Image::Egg,
        blocks_movement: true,
        counter: 1,
    };
    let mut state = WorldState::new(tiles, vec![ent], Coord::new(0, 0));
    assert!(!state.take_turn(MovementDirection::Right));
    assert_eq!(state.player.position, Coord::new(0, 0));
    assert_eq!(state.entities.len(), 1);
    // Standing still advances the turn; the entity's counter runs out.
    assert!(state.take_turn(MovementDirection::StandStill));
    assert_eq!(state.entities.len(), 0);
    // The same move now resolves.
    assert!(state.take_turn(MovementDirection::Right));
    assert_eq!(state.player.position, Coord::new(1, 0));
}

#[test]
fn non_occupying_entity_does_not_block() {
    let (tiles, _) = {
        let map: Grid<TileLabel> = Grid::construct(2, 1, |_c: Coord| TileLabel {
            label: "ground".to_string(),
            rotation: Rotation::Normal,
            subsection: (0, 0),
        });
        load_world(&map).unwrap()
    };
    let ent = DynamicEntity {
        position: Coord::new(1, 0),
        image: Image::Egg,
        blocks_movement: false,
        counter: 5,
    };
    let mut state = WorldState::new(tiles, vec![ent], Coord::new(0, 0));
    assert!(state.take_turn(MovementDirection::Right));
    assert_eq!(state.player.position, Coord::new(1, 0));
}

#[test]
fn entity_lifecycle_exact() {
    let mut state = world_from_rows(&["e....."], Coord::new(3, 0));
    assert_eq!(state.entities.len(), 1);
    assert_eq!(state.entities[0].counter, 255);
    // 254 pipeline executions leave the egg alive on its last life point.
    for _ in 0..254 {
        assert!(state.take_turn(MovementDirection::StandStill));
        assert_eq!(state.entities.len(), 1);
    }
    assert_eq!(state.entities[0].counter, 1);
    // The 255th execution removes it, and its cell no longer blocks.
    assert!(state.take_turn(MovementDirection::StandStill));
    assert_eq!(state.entities.len(), 0);
    assert!(state.take_turn(MovementDirection::Left));
    assert!(state.take_turn(MovementDirection::Left));
    assert!(state.take_turn(MovementDirection::Left));
    assert_eq!(state.player.position, Coord::new(0, 0));
}

#[test]
fn end_to_end_five_by_five() {
    let mut state = world_from_rows(
        &["e....", ".....", ".....", ".....", "....."],
        Coord::new(2, 2),
    );
    let counter_before = state.entities[0].counter;
    // Moving up succeeds and advances the turn.
    assert!(state.take_turn(MovementDirection::Up));
    assert_eq!(state.player.position, Coord::new(2, 1));
    assert_eq!(state.entities[0].counter, counter_before - 1);
    // Walking off the top edge fails and advances nothing.
    assert!(state.take_turn(MovementDirection::Up));
    assert_eq!(state.player.position, Coord::new(2, 0));
    let counter_mid = state.entities[0].counter;
    assert!(!state.take_turn(MovementDirection::Up));
    assert_eq!(state.player.position, Coord::new(2, 0));
    assert_eq!(state.entities[0].counter, counter_mid);
    // Standing still always succeeds, changes no position, and still
    // runs one turn pipeline (one entity-age tick).
    assert!(state.take_turn(MovementDirection::StandStill));
    assert_eq!(state.player.position, Coord::new(2, 0));
    assert_eq!(state.entities[0].counter, counter_mid - 1);
}

#[test]
fn failed_move_runs_no_pipeline() {
    let mut state = world_from_rows(&["e.w"], Coord::new(1, 0));
    let counter_before = state.entities[0].counter;
    assert!(!state.take_turn(MovementDirection::Right));
    assert_eq!(state.entities[0].counter, counter_before);
    assert_eq!(vis_at(&state, 1, 0), Visibility::Invisible);
}
