use vstd::prelude::*;

use crate::grid::{in_i32_range, pair_add, GridPos};

verus! {

/// Where the player stands when the game starts.
pub open spec fn start_cell() -> (int, int) {
    (5, 5)
}

/// Where the player stands when the game starts.
pub fn player_start() -> (p: GridPos)
    ensures
        p@ == start_cell(),
        p.x == 5 && p.y == 5,
{
    GridPos::new(5, 5)
}

/// The player, and the tile it stands on.
#[derive(Clone, Copy, Debug, PartialEq, Eq, Structural)]
pub struct Player {
    pub grid: GridPos,
}

/// A request to move the player by `delta` tiles.
#[derive(Clone, Copy, Debug, PartialEq, Eq, Structural)]
pub struct MoveCommand {
    pub delta: GridPos,
}

/// The step that the movement keys pressed this frame add up to:
/// W is up (`y - 1`), S down (`y + 1`), A left (`x - 1`), D right (`x + 1`).
pub open spec fn key_delta(up: bool, down: bool, left: bool, right: bool) -> (int, int) {
    (
        (if right {
            1int
        } else {
            0int
        }) - (if left {
            1int
        } else {
            0int
        }),
        (if down {
            1int
        } else {
            0int
        }) - (if up {
            1int
        } else {
            0int
        }),
    )
}

/// Turns the movement keys pressed this frame into a move, or `None` when they
/// add up to no step at all.
pub fn read_movement_input(up: bool, down: bool, left: bool, right: bool) -> (cmd: Option<
    MoveCommand,
>)
    ensures
        cmd is None <==> key_delta(up, down, left, right) == (0int, 0int),
        cmd matches Some(c) ==> c.delta@ == key_delta(up, down, left, right),
{
    let mut delta = GridPos::zero();
    if up {
        delta = delta.add(&GridPos::new(0, -1));
    }
    if down {
        delta = delta.add(&GridPos::new(0, 1));
    }
    if left {
        delta = delta.add(&GridPos::new(-1, 0));
    }
    if right {
        delta = delta.add(&GridPos::new(1, 0));
    }
    if !delta.is_zero() {
        Some(MoveCommand { delta })
    } else {
        None
    }
}

/// The sum of the steps of a list of moves.
pub open spec fn total_delta(cmds: Seq<MoveCommand>) -> (int, int)
    decreases cmds.len(),
{
    if cmds.len() == 0 {
        (0, 0)
    } else {
        pair_add(total_delta(cmds.drop_last()), cmds.last().delta@)
    }
}

/// Whether, starting at `start`, every position reached while making the moves in
/// order fits the coordinate range.
pub open spec fn moves_stay_in_range(start: (int, int), cmds: Seq<MoveCommand>) -> bool {
    forall|k: int| 0 <= k <= cmds.len() ==> #[trigger] in_i32_range(pair_add(start, total_delta(cmds.take(k))))
}

impl Player {
    /// The player as it is spawned, on the start tile.
    pub fn spawn() -> (p: Player)
        ensures
            p.grid@ == start_cell(),
    {
        Player { grid: player_start() }
    }

    /// Moves the player by the command's step. Walls and the grid's edge do not stop it.
    pub fn apply_move(&mut self, cmd: &MoveCommand)
        requires
            in_i32_range(pair_add(old(self).grid@, cmd.delta@)),
        ensures
            final(self).grid@ == pair_add(old(self).grid@, cmd.delta@),
    {
        self.grid = self.grid.add(&cmd.delta);
    }
}

/// Makes the moves in order.
pub fn apply_movement(player: &mut Player, cmds: &Vec<MoveCommand>)
    requires
        moves_stay_in_range(old(player).grid@, cmds@),
    ensures
        final(player).grid@ == pair_add(old(player).grid@, total_delta(cmds@)),
{
    let ghost start = player.grid@;
    let mut i: usize = 0;
    assert(cmds@.take(0) =~= Seq::<MoveCommand>::empty());
    while i < cmds.len()
        invariant
            i <= cmds.len(),
            moves_stay_in_range(start, cmds@),
            player.grid@ == pair_add(start, total_delta(cmds@.take(i as int))),
        decreases cmds.len() - i,
    {
        assert(cmds@.take(i + 1).drop_last() =~= cmds@.take(i as int));
        assert(cmds@.take(i + 1).last() == cmds@[i as int]);
        assert(in_i32_range(pair_add(start, total_delta(cmds@.take(i + 1)))));
        player.apply_move(&cmds[i]);
        i = i + 1;
    }
    assert(cmds@.take(i as int) =~= cmds@);
}

/// A move followed by the opposite move brings the player back where it stood.
pub proof fn lemma_move_then_back(start: (int, int), delta: (int, int))
    ensures
        pair_add(pair_add(start, delta), (-delta.0, -delta.1)) == start,
{
}

/// Making a list of moves one by one lands where the single summed step lands.
pub proof fn lemma_moves_compose(start: (int, int), first: Seq<MoveCommand>, second: Seq<MoveCommand>)
    ensures
        pair_add(pair_add(start, total_delta(first)), total_delta(second)) == pair_add(
            start,
            total_delta(first + second),
        ),
    decreases second.len(),
{
    if second.len() == 0 {
        assert(first + second =~= first);
    } else {
        lemma_moves_compose(start, first, second.drop_last());
        assert((first + second).drop_last() =~= first + second.drop_last());
    }
}

/// Pressing opposite keys together cancels them out.
pub proof fn lemma_opposite_keys_cancel(up: bool, down: bool, left: bool, right: bool)
    ensures
        key_delta(true, true, left, right) == key_delta(false, false, left, right),
        key_delta(up, down, true, true) == key_delta(up, down, false, false),
        key_delta(true, true, true, true) == (0int, 0int),
{
}

/// No move lands where it started; each further move adds exactly its own step to the
/// sum, whatever the step.
pub proof fn lemma_total_delta_push(cmds: Seq<MoveCommand>, c: MoveCommand)
    ensures
        total_delta(Seq::<MoveCommand>::empty()) == (0int, 0int),
        total_delta(cmds.push(c)) == (total_delta(cmds).0 + c.delta.x, total_delta(cmds).1
            + c.delta.y),
        total_delta(seq![c]) == (c.delta.x as int, c.delta.y as int),
{
    assert(cmds.push(c).drop_last() =~= cmds);
    assert(seq![c].drop_last() =~= Seq::<MoveCommand>::empty());
}

/// Each movement key adds its own unit step, whatever the other keys do: W adds (0, -1),
/// S adds (0, 1), A adds (-1, 0), D adds (1, 0), and no key gives no step.
pub proof fn lemma_key_delta_per_key(up: bool, down: bool, left: bool, right: bool)
    ensures
        key_delta(false, false, false, false) == (0int, 0int),
        key_delta(true, down, left, right) == (key_delta(false, down, left, right).0, key_delta(
            false,
            down,
            left,
            right,
        ).1 - 1),
        key_delta(up, true, left, right) == (key_delta(up, false, left, right).0, key_delta(
            up,
            false,
            left,
            right,
        ).1 + 1),
        key_delta(up, down, true, right) == (key_delta(up, down, false, right).0 - 1, key_delta(
            up,
            down,
            false,
            right,
        ).1),
        key_delta(up, down, left, true) == (key_delta(up, down, left, false).0 + 1, key_delta(
            up,
            down,
            left,
            false,
        ).1),
{
}

} // verus!
