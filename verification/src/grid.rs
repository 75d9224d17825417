use vstd::prelude::*;

verus! {

/// Whether an integer pair fits the coordinate range of a tile.
pub open spec fn in_i32_range(c: (int, int)) -> bool {
    &&& i32::MIN <= c.0 <= i32::MAX
    &&& i32::MIN <= c.1 <= i32::MAX
}

/// Componentwise sum of two integer pairs.
pub open spec fn pair_add(a: (int, int), b: (int, int)) -> (int, int) {
    (a.0 + b.0, a.1 + b.1)
}

/// Adding pairs adds each component: it is commutative and associative, `(0, 0)` changes
/// nothing, and adding the negation gives `(0, 0)`.
pub proof fn lemma_pair_add(a: (int, int), b: (int, int), c: (int, int))
    ensures
        pair_add(a, b).0 == a.0 + b.0,
        pair_add(a, b).1 == a.1 + b.1,
        pair_add(a, b) == pair_add(b, a),
        pair_add(pair_add(a, b), c) == pair_add(a, pair_add(b, c)),
        pair_add(a, (0, 0)) == a,
        pair_add(a, (-a.0, -a.1)) == (0int, 0int),
{
}

/// A tile coordinate on the integer grid.
#[derive(Clone, Copy, Debug, PartialEq, Eq, Structural)]
pub struct GridPos {
    pub x: i32,
    pub y: i32,
}

impl View for GridPos {
    type V = (int, int);

    open spec fn view(&self) -> (int, int) {
        (self.x as int, self.y as int)
    }
}

impl GridPos {
    /// Builds a coordinate from its two components.
    pub fn new(x: i32, y: i32) -> (p: GridPos)
        ensures
            p.x == x,
            p.y == y,
    {
        GridPos { x, y }
    }

    /// The origin, `(0, 0)`.
    pub fn zero() -> (p: GridPos)
        ensures
            p@ == (0int, 0int),
    {
        GridPos { x: 0, y: 0 }
    }

    /// Whether both components are zero.
    pub fn is_zero(&self) -> (b: bool)
        ensures
            b == (self@ == (0int, 0int)),
    {
        self.x == 0 && self.y == 0
    }

    /// Componentwise sum; the sum must fit the coordinate range.
    pub fn add(&self, other: &GridPos) -> (p: GridPos)
        requires
            in_i32_range(pair_add(self@, other@)),
        ensures
            p@ == pair_add(self@, other@),
    {
        GridPos { x: self.x + other.x, y: self.y + other.y }
    }

    /// Componentwise negation; neither component may be `i32::MIN`.
    pub fn neg(&self) -> (p: GridPos)
        requires
            self.x > i32::MIN,
            self.y > i32::MIN,
        ensures
            p@ == (-self@.0, -self@.1),
    {
        GridPos { x: -self.x, y: -self.y }
    }
}

} // verus!
