//! Where an entity stands on the grid, and where that is in the world.

use vstd::prelude::*;
use crate::vectors::Vector3Int;

verus! {

/// Edge length of one grid cell, in world units.
pub const TILE_SIZE: i64 = 16;

/// The grid cell an entity occupies or is heading for.
#[derive(Clone, Copy, Debug, PartialEq, Eq, Hash, Structural)]
pub struct Position {
    pub v: Vector3Int,
}

/// A point of the world in whole world units. Every grid cell projects onto
/// such a point, so the projection needs no fractions.
#[derive(Clone, Copy, Debug, PartialEq, Eq, Hash, Structural)]
pub struct WorldPosition {
    pub x: i64,
    pub y: i64,
    pub z: i64,
}

/// The world point of a grid cell: `x` and `y` scaled by the tile size, the
/// layer kept as depth.
pub open spec fn world_position_of(v: Vector3Int) -> WorldPosition {
    WorldPosition { x: (TILE_SIZE * v.x) as i64, y: (TILE_SIZE * v.y) as i64, z: v.z as i64 }
}

/// Projects a grid position into the world.
pub fn get_world_position(position: &Position) -> (w: WorldPosition)
    ensures
        w == world_position_of(position.v),
        w.x == TILE_SIZE * position.v.x,
        w.y == TILE_SIZE * position.v.y,
        w.z == position.v.z,
{
    WorldPosition {
        x: TILE_SIZE * (position.v.x as i64),
        y: TILE_SIZE * (position.v.y as i64),
        z: position.v.z as i64,
    }
}

} // verus!
