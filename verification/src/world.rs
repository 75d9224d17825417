use std::collections::HashSet;
use vstd::prelude::*;

use crate::grid::{in_i32_range, GridPos};

verus! {

broadcast use vstd::std_specs::hash::group_hash_axioms;

/// Width and height, in tiles, of the playable square.
pub const GRID_SIZE: i32 = 10;

/// The key under which a cell is stored in the set of solid cells:
/// both components are shifted into `0 .. 2^32` and packed into one number.
pub open spec fn cell_key(c: (int, int)) -> int {
    (c.0 + 0x8000_0000) * 0x1_0000_0000 + (c.1 + 0x8000_0000)
}

/// Distinct cells have distinct keys, and every key lies in `u64`.
pub proof fn lemma_cell_key(c: (int, int), d: (int, int))
    requires
        in_i32_range(c),
        in_i32_range(d),
    ensures
        0 <= cell_key(c) <= u64::MAX,
        cell_key(c) == cell_key(d) ==> c == d,
{
    assert(0 <= cell_key(c) <= u64::MAX) by (nonlinear_arith)
        requires
            in_i32_range(c),
    ;
}

/// Computes the key of a tile.
fn key_of(p: GridPos) -> (k: u64)
    ensures
        k as int == cell_key(p@),
{
    let hi: u64 = (p.x as i64 + 0x8000_0000i64) as u64;
    let lo: u64 = (p.y as i64 + 0x8000_0000i64) as u64;
    assert(hi * 0x1_0000_0000 + lo <= u64::MAX) by (nonlinear_arith)
        requires
            hi < 0x1_0000_0000,
            lo < 0x1_0000_0000,
    ;
    hi * 0x1_0000_0000 + lo
}

/// The walkable area: a `size.x` by `size.y` rectangle with the origin in a
/// corner, in which some tiles are solid.
pub struct WorldGrid {
    size: GridPos,
    solids: HashSet<u64>,
}

impl WorldGrid {
    /// The dimensions of the grid, in tiles.
    pub closed spec fn extent(&self) -> GridPos {
        self.size
    }

    /// The cells that are marked solid.
    pub closed spec fn solid_cells(&self) -> Set<(int, int)> {
        Set::new(|c: (int, int)| in_i32_range(c) && self.solids@.contains(cell_key(c) as u64))
    }

    /// A cell is blocked when it lies outside the grid or is solid.
    pub open spec fn blocks(&self, c: (int, int)) -> bool {
        c.0 < 0 || c.1 < 0 || c.0 >= self.extent().x || c.1 >= self.extent().y
            || self.solid_cells().contains(c)
    }

    /// A grid of the given size with no solid tile.
    pub fn new(size: GridPos) -> (g: WorldGrid)
        ensures
            g.extent() == size,
            g.solid_cells() == Set::<(int, int)>::empty(),
    {
        let g = WorldGrid { size, solids: HashSet::new() };
        assert(g.solid_cells() =~= Set::<(int, int)>::empty());
        g
    }

    /// The dimensions of the grid, in tiles.
    pub fn size(&self) -> (s: GridPos)
        ensures
            s == self.extent(),
    {
        self.size
    }

    /// Whether `tile` is marked solid.
    pub fn is_solid(&self, tile: GridPos) -> (b: bool)
        ensures
            b == self.solid_cells().contains(tile@),
    {
        let k = key_of(tile);
        self.solids.contains(&k)
    }

    /// Marks `tile` as solid; the size is kept.
    pub fn add_solid(&mut self, tile: GridPos)
        ensures
            final(self).extent() == old(self).extent(),
            final(self).solid_cells() == old(self).solid_cells().insert(tile@),
    {
        let k = key_of(tile);
        self.solids.insert(k);
        assert forall|c: (int, int)| in_i32_range(c) && cell_key(c) as u64 == k implies c == tile@ by {
            lemma_cell_key(c, tile@);
        }
        assert(self.solid_cells() =~= old(self).solid_cells().insert(tile@));
    }

    /// A tile is blocked when it lies outside the grid or is solid.
    pub fn is_blocked(&self, tile: GridPos) -> (b: bool)
        ensures
            b == self.blocks(tile@),
    {
        tile.x < 0 || tile.y < 0 || tile.x >= self.size.x || tile.y >= self.size.y
            || self.is_solid(tile)
    }
}


/// The wall cells, in the order they are placed.
pub open spec fn wall_cells() -> Seq<(int, int)> {
    seq![(3int, 3int), (4int, 3int), (5int, 3int), (3int, 4int), (3int, 5int)]
}

/// The tiles on which a wall stands.
pub fn wall_tiles() -> (walls: Vec<GridPos>)
    ensures
        walls@.map_values(|p: GridPos| p@) == wall_cells(),
        walls@ == seq![
            GridPos { x: 3, y: 3 },
            GridPos { x: 4, y: 3 },
            GridPos { x: 5, y: 3 },
            GridPos { x: 3, y: 4 },
            GridPos { x: 3, y: 5 },
        ],
{
    let walls = vec![
        GridPos::new(3, 3),
        GridPos::new(4, 3),
        GridPos::new(5, 3),
        GridPos::new(3, 4),
        GridPos::new(3, 5),
    ];
    assert(walls@.map_values(|p: GridPos| p@) =~= wall_cells());
    assert(walls@ =~= seq![
        GridPos { x: 3, y: 3 },
        GridPos { x: 4, y: 3 },
        GridPos { x: 5, y: 3 },
        GridPos { x: 3, y: 4 },
        GridPos { x: 3, y: 5 },
    ]);
    walls
}

impl WorldGrid {
    /// Marks every tile of `walls` as solid; the size is kept.
    pub fn place_walls(&mut self, walls: &Vec<GridPos>)
        ensures
            final(self).extent() == old(self).extent(),
            final(self).solid_cells() == old(self).solid_cells() + walls@.map_values(
                |p: GridPos| p@,
            ).to_set(),
    {
        let ghost cells = walls@.map_values(|p: GridPos| p@);
        let mut i: usize = 0;
        while i < walls.len()
            invariant
                i <= walls.len(),
                cells == walls@.map_values(|p: GridPos| p@),
                self.extent() == old(self).extent(),
                self.solid_cells() == old(self).solid_cells() + cells.take(i as int).to_set(),
            decreases walls.len() - i,
        {
            self.add_solid(walls[i]);
            assert(cells.take(i + 1) =~= cells.take(i as int).push(walls@[i as int]@));
            assert(cells.take(i + 1).to_set() =~= cells.take(i as int).to_set().insert(
                walls@[i as int]@,
            )) by {
                let t = cells.take(i as int);
                let t1 = cells.take(i + 1);
                assert forall|c: (int, int)| #[trigger] t1.contains(c) implies t.contains(c)
                    || c == walls@[i as int]@ by {
                    let j = choose|j: int| 0 <= j < i + 1 && #[trigger] t1[j] == c;
                    if j < i {
                        assert(t[j] == c);
                    }
                }
                assert forall|c: (int, int)| #[trigger] t.contains(c) implies t1.contains(c) by {
                    let j = choose|j: int| 0 <= j < i && #[trigger] t[j] == c;
                    assert(t1[j] == c);
                }
                assert(t1[i as int] == walls@[i as int]@);
            }
            i = i + 1;
            assert(self.solid_cells() =~= old(self).solid_cells() + cells.take(i as int).to_set());
        }
        assert(cells.take(i as int) =~= cells);
    }
}

/// The starting world: a `GRID_SIZE` square whose solid tiles are the walls.
pub fn default_world() -> (g: WorldGrid)
    ensures
        g.extent()@ == (GRID_SIZE as int, GRID_SIZE as int),
        g.solid_cells() == wall_cells().to_set(),
{
    let mut g = WorldGrid::new(GridPos::new(GRID_SIZE, GRID_SIZE));
    let walls = wall_tiles();
    g.place_walls(&walls);
    assert(g.solid_cells() =~= wall_cells().to_set());
    g
}

/// A ground tile at grid position `(x, y)` and height `z`.
#[derive(Clone, Copy, Debug, PartialEq, Eq, Structural)]
pub struct Tile {
    pub x: i32,
    pub y: i32,
    pub z: i32,
}

impl Tile {
    /// Ground tiles alternate in a checkerboard: a tile is light when `x + y` is even.
    pub fn is_light(&self) -> (b: bool)
        requires
            i32::MIN <= self.x + self.y <= i32::MAX,
        ensures
            b == ((self.x + self.y) % 2 == 0),
    {
        (self.x + self.y) % 2 == 0
    }
}

/// Neighbouring ground tiles, side by side along either axis, never share a shade.
pub proof fn lemma_checkerboard_alternates(x: int, y: int)
    ensures
        ((x + y) % 2 == 0) != ((x + 1 + y) % 2 == 0),
        ((x + y) % 2 == 0) != ((x + y + 1) % 2 == 0),
{
}

/// The ground tiles of a `size` by `size` grid at height 0, column by column:
/// the tile `(x, y)` stands at index `x * size + y`.
pub fn ground_tiles(size: i32) -> (tiles: Vec<Tile>)
    requires
        0 <= size,
        size * size <= usize::MAX,
    ensures
        tiles.len() == size * size,
        forall|x: int, y: int|
            0 <= x < size && 0 <= y < size ==> #[trigger] tiles@[x * size + y] == (Tile {
                x: x as i32,
                y: y as i32,
                z: 0,
            }),
{
    let mut tiles: Vec<Tile> = Vec::new();
    let mut x: i32 = 0;
    while x < size
        invariant
            0 <= x <= size,
            size * size <= usize::MAX,
            tiles.len() == x * size,
            forall|a: int, b: int|
                0 <= a < x && 0 <= b < size ==> #[trigger] tiles@[a * size + b] == (Tile {
                    x: a as i32,
                    y: b as i32,
                    z: 0,
                }),
        decreases size - x,
    {
        let mut y: i32 = 0;
        while y < size
            invariant
                0 <= x < size,
                0 <= y <= size,
                size * size <= usize::MAX,
                tiles.len() == x * size + y,
                forall|a: int, b: int|
                    0 <= a < x && 0 <= b < size ==> #[trigger] tiles@[a * size + b] == (Tile {
                        x: a as i32,
                        y: b as i32,
                        z: 0,
                    }),
                forall|b: int|
                    0 <= b < y ==> #[trigger] tiles@[x * size + b] == (Tile {
                        x: x as i32,
                        y: b as i32,
                        z: 0,
                    }),
            decreases size - y,
        {
            assert(x * size + y < size * size) by (nonlinear_arith)
                requires
                    0 <= x < size,
                    0 <= y < size,
            ;
            let ghost before = tiles@;
            tiles.push(Tile { x, y, z: 0 });
            assert forall|a: int, b: int| 0 <= a < x && 0 <= b < size implies #[trigger] tiles@[a
                * size + b] == before[a * size + b] by {
                assert(a * size + b < x * size) by (nonlinear_arith)
                    requires
                        0 <= a < x,
                        0 <= b < size,
                ;
            }
            y = y + 1;
        }
        assert forall|a: int, b: int|
            0 <= a < x + 1 && 0 <= b < size implies #[trigger] tiles@[a * size + b] == (Tile {
            x: a as i32,
            y: b as i32,
            z: 0,
        }) by {
            if a == x {
            }
        }
        assert((x + 1) * size == x * size + size) by (nonlinear_arith);
        x = x + 1;
    }
    tiles
}

/// Marking a tile solid blocks it and leaves every other tile as it was.
pub proof fn lemma_add_solid_blocks(before: WorldGrid, after: WorldGrid, t: (int, int), u: (int, int))
    requires
        after.extent() == before.extent(),
        after.solid_cells() == before.solid_cells().insert(t),
    ensures
        after.blocks(t),
        u != t ==> after.blocks(u) == before.blocks(u),
{
}

/// In the starting world the walls are blocked, every other cell of the square is free,
/// and every cell outside it is blocked.
pub proof fn lemma_default_world_blocks(g: WorldGrid, c: (int, int))
    requires
        g.extent()@ == (GRID_SIZE as int, GRID_SIZE as int),
        g.solid_cells() == wall_cells().to_set(),
    ensures
        g.blocks(c) <==> (!(0 <= c.0 < GRID_SIZE && 0 <= c.1 < GRID_SIZE) || wall_cells().contains(
            c,
        )),
{
}

/// On every grid, whatever its size, a cell is blocked exactly when it lies outside
/// `0 .. size.x` by `0 .. size.y` or is solid; on a fresh grid exactly the cells outside
/// that rectangle are blocked.
pub proof fn lemma_blocks_any_grid(g: WorldGrid, c: (int, int))
    ensures
        g.blocks(c) <==> (!(0 <= c.0 < g.extent().x && 0 <= c.1 < g.extent().y)
            || g.solid_cells().contains(c)),
        g.solid_cells() == Set::<(int, int)>::empty() ==> (g.blocks(c) <==> !(0 <= c.0
            < g.extent().x && 0 <= c.1 < g.extent().y)),
{
}

/// The five wall cells of the starting world: a row from (3, 3) to (5, 3) and a column
/// from (3, 3) down to (3, 5).
pub proof fn lemma_wall_cells()
    ensures
        wall_cells().len() == 5,
        wall_cells().to_set() == set![(3int, 3int), (4int, 3int), (5int, 3int), (3int, 4int), (3int, 5int)],
{
    let w = wall_cells();
    assert forall|c: (int, int)| #[trigger] w.contains(c) <==> set![(3int, 3int), (4int, 3int), (5int, 3int), (3int, 4int), (3int, 5int)].contains(c) by {
        if set![(3int, 3int), (4int, 3int), (5int, 3int), (3int, 4int), (3int, 5int)].contains(c) {
            if c == (3int, 3int) { assert(w[0] == c); }
            else if c == (4int, 3int) { assert(w[1] == c); }
            else if c == (5int, 3int) { assert(w[2] == c); }
            else if c == (3int, 4int) { assert(w[3] == c); }
            else { assert(w[4] == c); }
        }
    }
    assert(w.to_set() =~= set![(3int, 3int), (4int, 3int), (5int, 3int), (3int, 4int), (3int, 5int)]);
}

} // verus!
