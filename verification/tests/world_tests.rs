use ashfall::grid::GridPos;
use ashfall::iso::{grid_lines, GridLine, GRID_LINE_CELLS};
use ashfall::world::{default_world, ground_tiles, wall_tiles, Tile, WorldGrid, GRID_SIZE};

#[test]
fn grid_pos_arithmetic() {
    let a = GridPos::new(3, -4);
    let b = GridPos::new(-1, 2);
    assert_eq!(a.add(&b), GridPos::new(2, -2));
    assert_eq!(a.neg(), GridPos::new(-3, 4));
    assert!(GridPos::zero().is_zero());
    assert!(!a.is_zero());
    assert_eq!(a.add(&a.neg()), GridPos::zero());
}

#[test]
fn empty_grid_blocks_only_outside() {
    let g = WorldGrid::new(GridPos::new(4, 3));
    assert_eq!(g.size(), GridPos::new(4, 3));
    assert!(!g.is_blocked(GridPos::new(0, 0)));
    assert!(!g.is_blocked(GridPos::new(3, 2)));
    assert!(g.is_blocked(GridPos::new(4, 2)));
    assert!(g.is_blocked(GridPos::new(3, 3)));
    assert!(g.is_blocked(GridPos::new(-1, 0)));
    assert!(g.is_blocked(GridPos::new(0, -1)));
}

#[test]
fn added_solid_blocks_that_tile_only() {
    let mut g = WorldGrid::new(GridPos::new(10, 10));
    g.add_solid(GridPos::new(2, 7));
    assert!(g.is_solid(GridPos::new(2, 7)));
    assert!(g.is_blocked(GridPos::new(2, 7)));
    assert!(!g.is_blocked(GridPos::new(7, 2)));
    assert!(!g.is_solid(GridPos::new(2, 6)));
    // extreme coordinates get distinct keys
    g.add_solid(GridPos::new(i32::MIN, i32::MAX));
    assert!(g.is_solid(GridPos::new(i32::MIN, i32::MAX)));
    assert!(!g.is_solid(GridPos::new(i32::MAX, i32::MIN)));
    assert!(!g.is_solid(GridPos::new(i32::MIN, i32::MIN)));
}

#[test]
fn default_world_has_the_walls() {
    let g = default_world();
    assert_eq!(g.size(), GridPos::new(GRID_SIZE, GRID_SIZE));
    for w in wall_tiles() {
        assert!(g.is_blocked(w));
    }
    assert!(g.is_blocked(GridPos::new(3, 3)));
    assert!(g.is_blocked(GridPos::new(3, 5)));
    assert!(!g.is_blocked(GridPos::new(4, 4)));
    assert!(!g.is_blocked(GridPos::new(5, 5)));
    assert!(g.is_blocked(GridPos::new(10, 5)));
    let mut free = 0;
    for x in 0..GRID_SIZE {
        for y in 0..GRID_SIZE {
            if !g.is_blocked(GridPos::new(x, y)) {
                free += 1;
            }
        }
    }
    assert_eq!(free, 95);
}

#[test]
fn wall_list() {
    let w = wall_tiles();
    assert_eq!(
        w,
        vec![
            GridPos::new(3, 3),
            GridPos::new(4, 3),
            GridPos::new(5, 3),
            GridPos::new(3, 4),
            GridPos::new(3, 5),
        ]
    );
}

#[test]
fn placing_walls_on_a_grid() {
    let mut g = WorldGrid::new(GridPos::new(6, 6));
    g.place_walls(&vec![GridPos::new(1, 1), GridPos::new(1, 1), GridPos::new(5, 0)]);
    assert!(g.is_solid(GridPos::new(1, 1)));
    assert!(g.is_solid(GridPos::new(5, 0)));
    assert!(!g.is_solid(GridPos::new(0, 5)));
    assert_eq!(g.size(), GridPos::new(6, 6));
}

#[test]
fn ground_is_a_checkerboard() {
    let tiles = ground_tiles(GRID_SIZE);
    assert_eq!(tiles.len(), 100);
    assert_eq!(tiles[0], Tile { x: 0, y: 0, z: 0 });
    assert_eq!(tiles[1], Tile { x: 0, y: 1, z: 0 });
    assert_eq!(tiles[10], Tile { x: 1, y: 0, z: 0 });
    assert_eq!(tiles[99], Tile { x: 9, y: 9, z: 0 });
    let light = tiles.iter().filter(|t| t.is_light()).count();
    assert_eq!(light, 50);
    assert!(Tile { x: 0, y: 0, z: 0 }.is_light());
    assert!(!Tile { x: 1, y: 0, z: 0 }.is_light());
    assert!(Tile { x: -3, y: 1, z: 0 }.is_light());
    assert!(!Tile { x: -3, y: 0, z: 0 }.is_light());
    assert!(ground_tiles(0).is_empty());
}

#[test]
fn drawn_grid_lines() {
    let lines = grid_lines(GRID_LINE_CELLS);
    assert_eq!(lines.len(), 22);
    assert_eq!(
        lines[0],
        GridLine { from: GridPos::new(0, 0), to: GridPos::new(0, 10) }
    );
    assert_eq!(
        lines[10],
        GridLine { from: GridPos::new(10, 0), to: GridPos::new(10, 10) }
    );
    assert_eq!(
        lines[11],
        GridLine { from: GridPos::new(0, 0), to: GridPos::new(10, 0) }
    );
    assert_eq!(
        lines[21],
        GridLine { from: GridPos::new(0, 10), to: GridPos::new(10, 10) }
    );
    assert_eq!(grid_lines(0).len(), 2);
}
