use gridworld::Coord;
use gridworld::Grid;

#[test]
fn grid_construct_round_trip() {
    let g: Grid<i32> = Grid::construct(4, 3, |c: Coord| c.x + 10 * c.y);
    for y in 0..3 {
        for x in 0..4 {
            let c = Coord::new(x, y);
            assert_eq!(g.get(c), Some(&(x + 10 * y)));
        }
    }
    assert_eq!(g.get(Coord::new(-1, 0)), None);
    assert_eq!(g.get(Coord::new(0, -1)), None);
    assert_eq!(g.get(Coord::new(4, 0)), None);
    assert_eq!(g.get(Coord::new(0, 3)), None);
    assert_eq!(g.get(Coord::new(100, 100)), None);
}

#[test]
fn grid_empty_dimensions() {
    let g: Grid<u8> = Grid::construct(0, 5, |_c: Coord| 7);
    assert_eq!(g.get(Coord::new(0, 0)), None);
    let g2: Grid<u8> = Grid::construct(5, 0, |_c: Coord| 7);
    assert_eq!(g2.get(Coord::new(0, 0)), None);
}

#[test]
fn grid_dimensions() {
    let g: Grid<bool> = Grid::construct(7, 2, |_c: Coord| false);
    assert_eq!(g.width(), 7);
    assert_eq!(g.height(), 2);
}

#[test]
fn grid_set_changes_one_cell() {
    let mut g: Grid<i32> = Grid::construct(3, 3, |_c: Coord| 0);
    g.set(Coord::new(1, 2), 42);
    for y in 0..3 {
        for x in 0..3 {
            let expected = if x == 1 && y == 2 { 42 } else { 0 };
            assert_eq!(g.get(Coord::new(x, y)), Some(&expected));
        }
    }
}

#[test]
fn grid_get_checked_matches_get() {
    let g: Grid<i32> = Grid::construct(2, 2, |c: Coord| c.x * 100 + c.y);
    for y in 0..2 {
        for x in 0..2 {
            let c = Coord::new(x, y);
            assert_eq!(g.get(c).unwrap(), g.get_checked(c));
        }
    }
}

#[test]
fn grid_enumerate_row_major() {
    let g: Grid<i32> = Grid::construct(2, 2, |c: Coord| c.x + 2 * c.y);
    let all = g.enumerate();
    assert_eq!(
        all,
        vec![
            (Coord::new(0, 0), 0),
            (Coord::new(1, 0), 1),
            (Coord::new(0, 1), 2),
            (Coord::new(1, 1), 3),
        ]
    );
}

#[test]
fn grid_map_with_coord_derives() {
    let src: Grid<i32> = Grid::construct(3, 2, |c: Coord| c.x + c.y);
    let dst: Grid<i32> = Grid::map_with_coord(&src, |c: Coord, v: i32| v * 2 + c.x);
    assert_eq!(dst.width(), 3);
    assert_eq!(dst.height(), 2);
    for y in 0..2 {
        for x in 0..3 {
            let c = Coord::new(x, y);
            assert_eq!(dst.get(c), Some(&((x + y) * 2 + x)));
        }
    }
}
