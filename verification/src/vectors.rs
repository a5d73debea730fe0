//! Integer grid coordinates.

use vstd::prelude::*;

verus! {

/// A cell of the grid. `x` grows to the right, `y` grows upward and `z` is
/// the layer, later layers lying in front of earlier ones.
///
/// Two cells are equal exactly when all three components are.
#[derive(Clone, Copy, Debug, PartialEq, Eq, Hash, Structural)]
pub struct Vector3Int {
    pub x: i32,
    pub y: i32,
    pub z: i32,
}

/// Whether `n` is a value of a grid component.
pub open spec fn fits_component(n: int) -> bool {
    i32::MIN <= n <= i32::MAX
}

impl Vector3Int {
    /// Whether every component of `self + other` is a value of a grid
    /// component.
    pub open spec fn sum_fits(self, other: Vector3Int) -> bool {
        &&& fits_component(self.x + other.x)
        &&& fits_component(self.y + other.y)
        &&& fits_component(self.z + other.z)
    }

    /// The component-wise sum; meaningful where `sum_fits` holds.
    pub open spec fn plus(self, other: Vector3Int) -> Vector3Int {
        Vector3Int {
            x: (self.x + other.x) as i32,
            y: (self.y + other.y) as i32,
            z: (self.z + other.z) as i32,
        }
    }

    pub fn new(x: i32, y: i32, z: i32) -> (v: Vector3Int)
        ensures
            v == (Vector3Int { x, y, z }),
    {
        Vector3Int { x, y, z }
    }

    /// One cell upward.
    pub fn up() -> (v: Vector3Int)
        ensures
            v == (Vector3Int { x: 0, y: 1, z: 0 }),
    {
        Vector3Int { x: 0, y: 1, z: 0 }
    }

    /// One cell downward.
    pub fn down() -> (v: Vector3Int)
        ensures
            v == (Vector3Int { x: 0, y: -1i32, z: 0 }),
    {
        Vector3Int { x: 0, y: -1, z: 0 }
    }

    /// One cell to the left.
    pub fn left() -> (v: Vector3Int)
        ensures
            v == (Vector3Int { x: -1i32, y: 0, z: 0 }),
    {
        Vector3Int { x: -1, y: 0, z: 0 }
    }

    /// One cell to the right.
    pub fn right() -> (v: Vector3Int)
        ensures
            v == (Vector3Int { x: 1, y: 0, z: 0 }),
    {
        Vector3Int { x: 1, y: 0, z: 0 }
    }

    /// Component-wise addition, for sums that stay on the grid.
    pub fn add(self, other: Vector3Int) -> (v: Vector3Int)
        requires
            self.sum_fits(other),
        ensures
            v == self.plus(other),
            v.x == self.x + other.x,
            v.y == self.y + other.y,
            v.z == self.z + other.z,
    {
        Vector3Int { x: self.x + other.x, y: self.y + other.y, z: self.z + other.z }
    }

    /// Component-wise addition that reports a sum leaving the grid instead
    /// of requiring that it does not.
    pub fn checked_add(self, other: Vector3Int) -> (r: Option<Vector3Int>)
        ensures
            r.is_some() <==> self.sum_fits(other),
            r.is_some() ==> r.unwrap() == self.plus(other),
    {
        let x: i64 = self.x as i64 + other.x as i64;
        let y: i64 = self.y as i64 + other.y as i64;
        let z: i64 = self.z as i64 + other.z as i64;
        if x < i32::MIN as i64 || x > i32::MAX as i64 || y < i32::MIN as i64 || y > i32::MAX as i64
            || z < i32::MIN as i64 || z > i32::MAX as i64 {
            None
        } else {
            Some(Vector3Int { x: x as i32, y: y as i32, z: z as i32 })
        }
    }
}

} // verus!
