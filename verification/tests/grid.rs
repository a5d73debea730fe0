use tilegrid::position::{get_world_position, Position, WorldPosition, TILE_SIZE};
use tilegrid::vectors::Vector3Int;

#[test]
fn vector_new_keeps_components() {
    let v = Vector3Int::new(3, -4, 5);
    assert_eq!(v.x, 3);
    assert_eq!(v.y, -4);
    assert_eq!(v.z, 5);
    assert_eq!(v, Vector3Int { x: 3, y: -4, z: 5 });
}

#[test]
fn vectors_are_equal_iff_all_components_match() {
    let v = Vector3Int::new(1, 2, 3);
    assert_eq!(v, Vector3Int::new(1, 2, 3));
    assert_ne!(v, Vector3Int::new(0, 2, 3));
    assert_ne!(v, Vector3Int::new(1, 0, 3));
    assert_ne!(v, Vector3Int::new(1, 2, 0));
}

#[test]
fn unit_steps() {
    assert_eq!(Vector3Int::up(), Vector3Int::new(0, 1, 0));
    assert_eq!(Vector3Int::down(), Vector3Int::new(0, -1, 0));
    assert_eq!(Vector3Int::left(), Vector3Int::new(-1, 0, 0));
    assert_eq!(Vector3Int::right(), Vector3Int::new(1, 0, 0));
}

#[test]
fn add_is_component_wise() {
    let a = Vector3Int::new(1, -2, 3);
    let b = Vector3Int::new(10, 20, -30);
    assert_eq!(a.add(b), Vector3Int::new(11, 18, -27));
    assert_eq!(b.add(a), Vector3Int::new(11, 18, -27));
    assert_eq!(a.add(Vector3Int::new(0, 0, 0)), a);
}

#[test]
fn add_reaches_the_edges_of_the_grid() {
    let a = Vector3Int::new(i32::MAX - 1, i32::MIN + 1, 0);
    assert_eq!(a.add(Vector3Int::new(1, -1, 0)), Vector3Int::new(i32::MAX, i32::MIN, 0));
}

#[test]
fn checked_add_gives_the_sum_where_it_fits() {
    let a = Vector3Int::new(5, 6, 7);
    assert_eq!(a.checked_add(Vector3Int::new(-5, 1, 2)), Some(Vector3Int::new(0, 7, 9)));
    let edge = Vector3Int::new(i32::MAX - 1, i32::MIN + 1, i32::MAX);
    assert_eq!(
        edge.checked_add(Vector3Int::new(1, -1, 0)),
        Some(Vector3Int::new(i32::MAX, i32::MIN, i32::MAX))
    );
}

#[test]
fn checked_add_refuses_a_sum_off_the_grid() {
    assert_eq!(Vector3Int::new(i32::MAX, 0, 0).checked_add(Vector3Int::right()), None);
    assert_eq!(Vector3Int::new(i32::MIN, 0, 0).checked_add(Vector3Int::left()), None);
    assert_eq!(Vector3Int::new(0, i32::MAX, 0).checked_add(Vector3Int::up()), None);
    assert_eq!(Vector3Int::new(0, i32::MIN, 0).checked_add(Vector3Int::down()), None);
    assert_eq!(Vector3Int::new(0, 0, i32::MAX).checked_add(Vector3Int::new(0, 0, 1)), None);
    assert_eq!(Vector3Int::new(0, 0, i32::MIN).checked_add(Vector3Int::new(0, 0, -1)), None);
}

#[test]
fn world_position_scales_by_tile_size() {
    assert_eq!(TILE_SIZE, 16);
    let p = Position { v: Vector3Int::new(3, -2, 5) };
    assert_eq!(get_world_position(&p), WorldPosition { x: 48, y: -32, z: 5 });
    let origin = Position { v: Vector3Int::new(0, 0, 0) };
    assert_eq!(get_world_position(&origin), WorldPosition { x: 0, y: 0, z: 0 });
}

#[test]
fn world_position_of_the_far_corners() {
    let p = Position { v: Vector3Int::new(i32::MAX, i32::MIN, i32::MIN) };
    assert_eq!(
        get_world_position(&p),
        WorldPosition { x: 34359738352, y: -34359738368, z: -2147483648 }
    );
}

#[test]
fn world_position_of_a_neighbour_is_one_tile_away() {
    let here = Position { v: Vector3Int::new(7, 9, 1) };
    let there = Position { v: here.v.add(Vector3Int::right()) };
    assert_eq!(get_world_position(&there).x - get_world_position(&here).x, TILE_SIZE);
    assert_eq!(get_world_position(&there).y, get_world_position(&here).y);
    assert_eq!(get_world_position(&there).z, get_world_position(&here).z);
}
