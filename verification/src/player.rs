//! The player: where it starts, and how key presses move its target cell.
//!
//! Four keys move the player, each by one cell: `W` up, `S` down, `A` left
//! and `D` right. Presses are applied one after another in that order of the
//! keys, with no press cancelled or merged into a diagonal, and presses of
//! later ticks add to those of earlier ones.

use vstd::prelude::*;
use crate::position::Position;
use crate::vectors::{fits_component, Vector3Int};

verus! {

/// Atlas index of the sprite that shows the player.
pub const PLAYER_SPRITE: usize = 95;

/// Depth at which the player stands, in front of the map's layers.
pub const PLAYER_LAYER: i32 = 5;

/// A direction of movement on the grid.
#[derive(Clone, Copy, Debug, PartialEq, Eq, Hash, Structural)]
pub enum Direction {
    Up,
    Down,
    Left,
    Right,
}

/// Which of the movement keys went down in one tick.
#[derive(Clone, Copy, Debug, PartialEq, Eq, Hash, Structural)]
pub struct PressedKeys {
    pub w: bool,
    pub s: bool,
    pub a: bool,
    pub d: bool,
}

impl Direction {
    /// The step of one cell in this direction.
    pub open spec fn delta_spec(self) -> Vector3Int {
        match self {
            Direction::Up => Vector3Int { x: 0, y: 1, z: 0 },
            Direction::Down => Vector3Int { x: 0, y: -1i32, z: 0 },
            Direction::Left => Vector3Int { x: -1i32, y: 0, z: 0 },
            Direction::Right => Vector3Int { x: 1, y: 0, z: 0 },
        }
    }

    /// The step of one cell in this direction.
    pub fn delta(self) -> (v: Vector3Int)
        ensures
            v == self.delta_spec(),
    {
        match self {
            Direction::Up => Vector3Int::up(),
            Direction::Down => Vector3Int::down(),
            Direction::Left => Vector3Int::left(),
            Direction::Right => Vector3Int::right(),
        }
    }
}

/// The directions asked for by the keys of one tick, in the order in which
/// the keys are gone through.
pub open spec fn pressed_directions_spec(keys: PressedKeys) -> Seq<Direction> {
    (if keys.w {
        seq![Direction::Up]
    } else {
        Seq::empty()
    }) + (if keys.s {
        seq![Direction::Down]
    } else {
        Seq::empty()
    }) + (if keys.a {
        seq![Direction::Left]
    } else {
        Seq::empty()
    }) + (if keys.d {
        seq![Direction::Right]
    } else {
        Seq::empty()
    })
}

/// The cell reached from `v` by one step in each of `directions`, in order.
pub open spec fn moved(v: Vector3Int, directions: Seq<Direction>) -> Vector3Int
    decreases directions.len(),
{
    if directions.len() == 0 {
        v
    } else {
        moved(v, directions.drop_last()).plus(directions.last().delta_spec())
    }
}

/// Whether each of the steps from `v` stays on the grid.
pub open spec fn moves_fit(v: Vector3Int, directions: Seq<Direction>) -> bool
    decreases directions.len(),
{
    if directions.len() == 0 {
        true
    } else {
        &&& moves_fit(v, directions.drop_last())
        &&& moved(v, directions.drop_last()).sum_fits(directions.last().delta_spec())
    }
}

/// Where the player stands when play begins: at the origin, on the
/// player's layer.
pub fn load_player() -> (position: Position)
    ensures
        position.v == (Vector3Int { x: 0, y: 0, z: PLAYER_LAYER }),
{
    Position { v: Vector3Int::new(0, 0, PLAYER_LAYER) }
}

/// The directions asked for by the keys of one tick, in the order in which
/// the keys are gone through.
pub fn pressed_directions(keys: &PressedKeys) -> (directions: Vec<Direction>)
    ensures
        directions@ == pressed_directions_spec(*keys),
{
    let mut directions: Vec<Direction> = Vec::new();
    if keys.w {
        directions.push(Direction::Up);
    }
    if keys.s {
        directions.push(Direction::Down);
    }
    if keys.a {
        directions.push(Direction::Left);
    }
    if keys.d {
        directions.push(Direction::Right);
    }
    assert(directions@ =~= pressed_directions_spec(*keys));
    directions
}

/// Moves the target cell one step in `direction`.
pub fn step(position: &mut Position, direction: Direction)
    requires
        old(position).v.sum_fits(direction.delta_spec()),
    ensures
        final(position).v == old(position).v.plus(direction.delta_spec()),
{
    position.v = position.v.add(direction.delta());
}

/// Moves the target cell one step for each of `directions`, in order.
pub fn follow(position: &mut Position, directions: &Vec<Direction>)
    requires
        moves_fit(old(position).v, directions@),
    ensures
        final(position).v == moved(old(position).v, directions@),
{
    let n: usize = directions.len();
    let mut i: usize = 0;
    while i < n
        invariant
            n == directions@.len(),
            i <= n,
            moves_fit(old(position).v, directions@),
            position.v == moved(old(position).v, directions@.take(i as int)),
        decreases n - i,
    {
        proof {
            assert(directions@.take(i + 1).drop_last() =~= directions@.take(i as int));
            lemma_moves_fit_prefix(old(position).v, directions@, i + 1);
        }
        step(position, directions[i]);
        i = i + 1;
    }
    assert(directions@.take(n as int) =~= directions@);
}

/// Whether the steps from `position` that `directions` ask for all stay on
/// the grid.
pub fn can_follow(position: &Position, directions: &Vec<Direction>) -> (fits: bool)
    ensures
        fits == moves_fit(position.v, directions@),
{
    let n: usize = directions.len();
    let mut at: Vector3Int = position.v;
    let mut i: usize = 0;
    while i < n
        invariant
            n == directions@.len(),
            i <= n,
            moves_fit(position.v, directions@.take(i as int)),
            at == moved(position.v, directions@.take(i as int)),
        decreases n - i,
    {
        proof {
            assert(directions@.take(i + 1).drop_last() =~= directions@.take(i as int));
        }
        match at.checked_add(directions[i].delta()) {
            Some(next) => {
                at = next;
            },
            None => {
                proof {
                    if moves_fit(position.v, directions@) {
                        lemma_moves_fit_prefix(position.v, directions@, i + 1);
                    }
                }
                return false;
            },
        }
        i = i + 1;
    }
    assert(directions@.take(n as int) =~= directions@);
    true
}

/// Moves the player's target cell as the keys of one tick ask: one step
/// for each key that went down, in the order `W`, `S`, `A`, `D`.
pub fn player_position(position: &mut Position, keys: &PressedKeys)
    requires
        moves_fit(old(position).v, pressed_directions_spec(*keys)),
    ensures
        final(position).v == moved(old(position).v, pressed_directions_spec(*keys)),
{
    let directions = pressed_directions(keys);
    follow(position, &directions);
}

/// Moves the player's target cell as the keys of one tick ask, where every
/// step stays on the grid, and says whether it did; else leaves it alone.
pub fn try_player_position(position: &mut Position, keys: &PressedKeys) -> (done: bool)
    ensures
        done == moves_fit(old(position).v, pressed_directions_spec(*keys)),
        done ==> final(position).v == moved(old(position).v, pressed_directions_spec(*keys)),
        !done ==> *final(position) == *old(position),
{
    let directions = pressed_directions(keys);
    if can_follow(position, &directions) {
        follow(position, &directions);
        true
    } else {
        false
    }
}

/// If all steps stay on the grid, so do the first `k` of them.
pub proof fn lemma_moves_fit_prefix(v: Vector3Int, directions: Seq<Direction>, k: int)
    requires
        moves_fit(v, directions),
        0 <= k <= directions.len(),
    ensures
        moves_fit(v, directions.take(k)),
    decreases directions.len(),
{
    if k == directions.len() {
        assert(directions.take(k) =~= directions);
    } else {
        assert(directions.drop_last().take(k) =~= directions.take(k));
        lemma_moves_fit_prefix(v, directions.drop_last(), k);
    }
}

/// Steps add up: taking the steps of `first` and then those of `then` is
/// taking the steps of both in a row. So the presses of a later tick carry
/// on from where those of earlier ticks led.
pub proof fn lemma_moved_concat(v: Vector3Int, first: Seq<Direction>, then: Seq<Direction>)
    ensures
        moved(v, first + then) == moved(moved(v, first), then),
        moves_fit(v, first + then) == (moves_fit(v, first) && moves_fit(moved(v, first), then)),
    decreases then.len(),
{
    if then.len() == 0 {
        assert(first + then =~= first);
    } else {
        assert((first + then).drop_last() =~= first + then.drop_last());
        assert((first + then).last() == then.last());
        lemma_moved_concat(v, first, then.drop_last());
    }
}

/// The point `n` cells from `v` in `direction`.
pub open spec fn shifted(v: Vector3Int, direction: Direction, n: int) -> (int, int, int) {
    match direction {
        Direction::Up => (v.x as int, v.y + n, v.z as int),
        Direction::Down => (v.x as int, v.y - n, v.z as int),
        Direction::Left => (v.x - n, v.y as int, v.z as int),
        Direction::Right => (v.x + n, v.y as int, v.z as int),
    }
}

/// The same key pressed `n` times moves the target by exactly `n` cells in
/// that key's direction and by nothing in any other: `n` presses of `D`
/// add `n` to `x`.
pub proof fn lemma_repeated_presses(v: Vector3Int, direction: Direction, n: nat)
    requires
        fits_component(shifted(v, direction, n as int).0),
        fits_component(shifted(v, direction, n as int).1),
    ensures
        moves_fit(v, Seq::new(n, |i: int| direction)),
        moved(v, Seq::new(n, |i: int| direction)).x == shifted(v, direction, n as int).0,
        moved(v, Seq::new(n, |i: int| direction)).y == shifted(v, direction, n as int).1,
        moved(v, Seq::new(n, |i: int| direction)).z == v.z,
        direction == Direction::Right ==> moved(v, Seq::new(n, |i: int| direction)).x == v.x + n,
    decreases n,
{
    if n > 0 {
        let presses = Seq::new(n, |i: int| direction);
        let fewer = Seq::new((n - 1) as nat, |i: int| direction);
        assert(presses.drop_last() =~= fewer);
        assert(presses.last() == direction);
        lemma_repeated_presses(v, direction, (n - 1) as nat);
    }
}

} // verus!
