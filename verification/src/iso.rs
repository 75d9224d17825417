use vstd::prelude::*;

use crate::grid::GridPos;

verus! {

/// How many cells the drawn grid spans along each axis.
pub const GRID_LINE_CELLS: i32 = 10;

/// A straight line from one grid corner to another.
#[derive(Clone, Copy, Debug, PartialEq, Eq, Structural)]
pub struct GridLine {
    pub from: GridPos,
    pub to: GridPos,
}

/// The outline of an `n` by `n` grid: first the `n + 1` lines of constant `x`, from
/// `(x, 0)` to `(x, n)`, then the `n + 1` lines of constant `y`, from `(0, y)` to `(n, y)`.
pub fn grid_lines(n: i32) -> (lines: Vec<GridLine>)
    requires
        0 <= n < i32::MAX,
    ensures
        lines.len() == 2 * (n + 1),
        forall|i: int|
            0 <= i <= n ==> #[trigger] lines@[i] == (GridLine {
                from: GridPos { x: i as i32, y: 0 },
                to: GridPos { x: i as i32, y: n },
            }),
        forall|i: int|
            0 <= i <= n ==> #[trigger] lines@[n + 1 + i] == (GridLine {
                from: GridPos { x: 0, y: i as i32 },
                to: GridPos { x: n, y: i as i32 },
            }),
{
    let mut lines: Vec<GridLine> = Vec::new();
    let mut x: i32 = 0;
    while x <= n
        invariant
            0 <= x <= n + 1,
            n < i32::MAX,
            lines.len() == x,
            forall|i: int|
                0 <= i < x ==> #[trigger] lines@[i] == (GridLine {
                    from: GridPos { x: i as i32, y: 0 },
                    to: GridPos { x: i as i32, y: n },
                }),
        decreases n + 1 - x,
    {
        lines.push(GridLine { from: GridPos { x, y: 0 }, to: GridPos { x, y: n } });
        x = x + 1;
    }
    let mut y: i32 = 0;
    while y <= n
        invariant
            0 <= y <= n + 1,
            n < i32::MAX,
            lines.len() == n + 1 + y,
            forall|i: int|
                0 <= i <= n ==> #[trigger] lines@[i] == (GridLine {
                    from: GridPos { x: i as i32, y: 0 },
                    to: GridPos { x: i as i32, y: n },
                }),
            forall|i: int|
                0 <= i < y ==> #[trigger] lines@[n + 1 + i] == (GridLine {
                    from: GridPos { x: 0, y: i as i32 },
                    to: GridPos { x: n, y: i as i32 },
                }),
        decreases n + 1 - y,
    {
        lines.push(GridLine { from: GridPos { x: 0, y }, to: GridPos { x: n, y } });
        y = y + 1;
    }
    lines
}

} // verus!
