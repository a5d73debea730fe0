//! The board: which tile stands at which grid cell.

use std::collections::HashMap;
use bevy::ecs::entity::Entity;
use vstd::prelude::*;
use crate::scene::{decode_scene_spec, lemma_decode_scene_ordered, scene_fits, TilePlacement};
use crate::vectors::Vector3Int;

verus! {

broadcast use vstd::std_specs::hash::group_hash_axioms;

/// `bevy::ecs::entity::Entity`, the engine's handle of a spawned entity.
/// The board stores and returns such handles and never looks inside one.
#[verifier::external_type_specification]
#[verifier::external_body]
pub struct ExEntity(Entity);

/// The tiles on the board, found by grid cell in constant time. A cell
/// holds at most one tile; cells that differ only in depth are different
/// cells, so tiles of different layers stand side by side.
pub struct CurrentBoard {
    tiles: HashMap<u128, Entity>,
}

/// The key under which a cell is stored: its three components, each moved
/// to be non-negative, side by side.
pub closed spec fn key_of(v: Vector3Int) -> u128 {
    ((v.x - i32::MIN) * 0x1_0000_0000_0000_0000 + (v.y - i32::MIN) * 0x1_0000_0000 + (v.z
        - i32::MIN)) as u128
}

/// Different cells have different keys.
proof fn lemma_key_injective(a: Vector3Int, b: Vector3Int)
    requires
        key_of(a) == key_of(b),
    ensures
        a == b,
{
}

fn cell_key(v: Vector3Int) -> (k: u128)
    ensures
        k == key_of(v),
{
    let x: u128 = (v.x as i64 - i32::MIN as i64) as u128;
    let y: u128 = (v.y as i64 - i32::MIN as i64) as u128;
    let z: u128 = (v.z as i64 - i32::MIN as i64) as u128;
    x * 0x1_0000_0000_0000_0000 + y * 0x1_0000_0000 + z
}

/// What a board answers for a cell.
pub open spec fn lookup_spec(board: Map<Vector3Int, Entity>, position: Vector3Int) -> Option<
    Entity,
> {
    if board.contains_key(position) {
        Some(board[position])
    } else {
        None
    }
}

/// The board after placing tile `tiles[i]` at `placements[i]`, one after
/// another from the first.
pub open spec fn placed_spec(
    board: Map<Vector3Int, Entity>,
    placements: Seq<TilePlacement>,
    tiles: Seq<Entity>,
) -> Map<Vector3Int, Entity>
    decreases placements.len(),
{
    if placements.len() == 0 {
        board
    } else {
        placed_spec(board, placements.drop_last(), tiles.drop_last()).insert(
            placements.last().position.v,
            tiles.last(),
        )
    }
}

impl View for CurrentBoard {
    type V = Map<Vector3Int, Entity>;

    closed spec fn view(&self) -> Map<Vector3Int, Entity> {
        Map::new(
            |v: Vector3Int| self.tiles@.contains_key(key_of(v)),
            |v: Vector3Int| self.tiles@[key_of(v)],
        )
    }
}

impl CurrentBoard {
    /// A board with no tile on it.
    pub fn new() -> (board: CurrentBoard)
        ensures
            board@ == Map::<Vector3Int, Entity>::empty(),
    {
        let board = CurrentBoard { tiles: HashMap::new() };
        assert(board@ =~= Map::<Vector3Int, Entity>::empty());
        board
    }

    /// Puts `tile` at `position`, in place of whatever stood there, and
    /// returns what stood there.
    pub fn insert(&mut self, position: Vector3Int, tile: Entity) -> (previous: Option<Entity>)
        ensures
            final(self)@ == old(self)@.insert(position, tile),
            previous == lookup_spec(old(self)@, position),
    {
        let k = cell_key(position);
        let previous = self.tiles.insert(k, tile);
        proof {
            assert forall|v: Vector3Int| key_of(v) == key_of(position) implies v == position by {
                lemma_key_injective(v, position);
            }
            assert(self@ =~= old(self)@.insert(position, tile));
        }
        previous
    }

    /// The tile at `position`, if one stands there.
    pub fn lookup(&self, position: Vector3Int) -> (found: Option<Entity>)
        ensures
            found == lookup_spec(self@, position),
    {
        let k = cell_key(position);
        match self.tiles.get(&k) {
            Some(tile) => Some(*tile),
            None => None,
        }
    }

    /// Puts each tile at the place decoded for it: `tiles[i]` at
    /// `placements[i]`, in order, so that of two tiles at one cell the later
    /// stays.
    pub fn place_all(&mut self, placements: &Vec<TilePlacement>, tiles: &Vec<Entity>)
        requires
            placements@.len() == tiles@.len(),
        ensures
            final(self)@ == placed_spec(old(self)@, placements@, tiles@),
    {
        let n: usize = placements.len();
        let mut i: usize = 0;
        while i < n
            invariant
                n == placements@.len(),
                n == tiles@.len(),
                i <= n,
                self@ == placed_spec(old(self)@, placements@.take(i as int), tiles@.take(i as int)),
            decreases n - i,
        {
            proof {
                assert(placements@.take(i + 1).drop_last() =~= placements@.take(i as int));
                assert(tiles@.take(i + 1).drop_last() =~= tiles@.take(i as int));
            }
            self.insert(placements[i].position.v, tiles[i]);
            i = i + 1;
        }
        proof {
            assert(placements@.take(n as int) =~= placements@);
            assert(tiles@.take(n as int) =~= tiles@);
        }
    }
}

impl Default for CurrentBoard {
    fn default() -> (board: CurrentBoard)
        ensures
            board@ == Map::<Vector3Int, Entity>::empty(),
    {
        CurrentBoard::new()
    }
}

/// A tile put on the board is found at its cell at once, a second tile put
/// at the same cell takes the place of the first, and no other cell changes.
pub proof fn lemma_insert_then_lookup(
    board: Map<Vector3Int, Entity>,
    position: Vector3Int,
    first: Entity,
    second: Entity,
    other: Vector3Int,
)
    ensures
        lookup_spec(board.insert(position, first), position) == Some(first),
        lookup_spec(board.insert(position, first).insert(position, second), position) == Some(
            second,
        ),
        other != position ==> lookup_spec(board.insert(position, first), other) == lookup_spec(
            board,
            other,
        ),
{
}

/// Placing tiles leaves alone every cell that none of them stands at.
pub proof fn lemma_placed_elsewhere(
    board: Map<Vector3Int, Entity>,
    placements: Seq<TilePlacement>,
    tiles: Seq<Entity>,
    v: Vector3Int,
)
    requires
        placements.len() == tiles.len(),
        forall|i: int| 0 <= i < placements.len() ==> (#[trigger] placements[i]).position.v != v,
    ensures
        lookup_spec(placed_spec(board, placements, tiles), v) == lookup_spec(board, v),
    decreases placements.len(),
{
    if placements.len() > 0 {
        assert(placements.last() == placements[placements.len() - 1]);
        assert forall|i: int| 0 <= i < placements.drop_last().len() implies (
        #[trigger] placements.drop_last()[i]).position.v != v by {
            assert(placements.drop_last()[i] == placements[i]);
        }
        lemma_placed_elsewhere(board, placements.drop_last(), tiles.drop_last(), v);
    }
}

/// After placing tiles, a cell holds the tile placed there last.
pub proof fn lemma_placed_last_wins(
    board: Map<Vector3Int, Entity>,
    placements: Seq<TilePlacement>,
    tiles: Seq<Entity>,
    i: int,
)
    requires
        placements.len() == tiles.len(),
        0 <= i < placements.len(),
        forall|j: int|
            i < j < placements.len() ==> (#[trigger] placements[j]).position.v
                != placements[i].position.v,
    ensures
        lookup_spec(placed_spec(board, placements, tiles), placements[i].position.v) == Some(
            tiles[i],
        ),
    decreases placements.len(),
{
    if i < placements.len() - 1 {
        assert(placements.last() == placements[placements.len() - 1]);
        assert(placements.drop_last()[i] == placements[i]);
        assert(tiles.drop_last()[i] == tiles[i]);
        assert forall|j: int| i < j < placements.drop_last().len() implies (
        #[trigger] placements.drop_last()[j]).position.v != placements.drop_last()[i].position.v by {
            assert(placements.drop_last()[j] == placements[j]);
        }
        lemma_placed_last_wins(board, placements.drop_last(), tiles.drop_last(), i);
    }
}

/// Every tile of a decoded scene keeps a cell of its own on the board:
/// tiles of later layers stand in front of those of earlier layers, none
/// takes the place of another.
pub proof fn lemma_scene_tiles_coexist(
    board: Map<Vector3Int, Entity>,
    layers: Seq<Seq<usize>>,
    tiles: Seq<Entity>,
    i: int,
)
    requires
        scene_fits(layers),
        tiles.len() == decode_scene_spec(layers).len(),
        0 <= i < tiles.len(),
    ensures
        lookup_spec(
            placed_spec(board, decode_scene_spec(layers), tiles),
            decode_scene_spec(layers)[i].position.v,
        ) == Some(tiles[i]),
{
    let placements = decode_scene_spec(layers);
    assert forall|j: int| i < j < placements.len() implies (#[trigger] placements[j]).position.v
        != placements[i].position.v by {
        lemma_decode_scene_ordered(layers, i, j);
    }
    lemma_placed_last_wins(board, placements, tiles, i);
}

} // verus!
