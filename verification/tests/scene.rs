use tilegrid::position::Position;
use tilegrid::scene::{
    cell_position, check_layer_count, decode_layer, decode_scene, load_scene, validate_scene,
    Scene, SceneError, Tile, TilePlacement, ATLAS_CELLS, ATLAS_COLUMNS, ATLAS_ROWS, LAYER_CELLS,
    MAP_HEIGHT, MAP_WIDTH, MAX_LAYERS,
};
use tilegrid::vectors::Vector3Int;

fn placement(x: i32, y: i32, z: i32, sprite: usize) -> TilePlacement {
    TilePlacement { position: Position { v: Vector3Int::new(x, y, z) }, tile: Tile { i: sprite } }
}

fn blank_layer() -> Vec<usize> {
    vec![0; LAYER_CELLS]
}

#[test]
fn map_constants() {
    assert_eq!(MAP_WIDTH, 32);
    assert_eq!(MAP_HEIGHT, 32);
    assert_eq!(LAYER_CELLS, MAP_WIDTH * MAP_HEIGHT);
    assert_eq!(ATLAS_COLUMNS, 12);
    assert_eq!(ATLAS_ROWS, 11);
    assert_eq!(ATLAS_CELLS, ATLAS_COLUMNS * ATLAS_ROWS);
    assert_eq!(MAX_LAYERS, 1usize << 31);
}

#[test]
fn first_cell_is_top_left() {
    assert_eq!(cell_position(0, 0), Vector3Int::new(-16, 16, 0));
}

#[test]
fn last_cell_of_first_row_is_top_right() {
    assert_eq!(cell_position(31, 0), Vector3Int::new(15, 16, 0));
}

#[test]
fn second_row_starts_one_below() {
    assert_eq!(cell_position(32, 0), Vector3Int::new(-16, 15, 0));
}

#[test]
fn last_cell_is_bottom_right() {
    assert_eq!(cell_position(1023, 0), Vector3Int::new(15, -15, 0));
}

#[test]
fn cell_position_keeps_the_depth() {
    assert_eq!(cell_position(528, 3), Vector3Int::new(0, 0, 3));
    assert_eq!(cell_position(0, -7), Vector3Int::new(-16, 16, -7));
}

#[test]
fn cell_position_beyond_the_map_goes_on_downward() {
    assert_eq!(cell_position(1024, 0), Vector3Int::new(-16, -16, 0));
    assert_eq!(cell_position(2047, 0), Vector3Int::new(15, -47, 0));
}

#[test]
fn decode_layer_skips_zero_and_lowers_by_one() {
    let layer = vec![0, 1, 0, 7, 132, 0];
    let out = decode_layer(&layer, 0);
    assert_eq!(
        out,
        vec![placement(-15, 16, 0, 0), placement(-13, 16, 0, 6), placement(-12, 16, 0, 131)]
    );
}

#[test]
fn decode_layer_of_nothing_is_nothing() {
    assert_eq!(decode_layer(&Vec::new(), 0), Vec::new());
    assert_eq!(decode_layer(&blank_layer(), 4), Vec::new());
}

#[test]
fn decode_layer_keeps_stored_order() {
    let mut layer = blank_layer();
    layer[0] = 5;
    layer[31] = 6;
    layer[32] = 7;
    layer[1023] = 8;
    let out = decode_layer(&layer, 2);
    assert_eq!(
        out,
        vec![
            placement(-16, 16, 2, 4),
            placement(15, 16, 2, 5),
            placement(-16, 15, 2, 6),
            placement(15, -15, 2, 7),
        ]
    );
}

#[test]
fn decode_layer_places_every_cell_of_a_full_layer() {
    let layer: Vec<usize> = (0..LAYER_CELLS).map(|p| p % 132 + 1).collect();
    let out = decode_layer(&layer, 1);
    assert_eq!(out.len(), LAYER_CELLS);
    for (p, placed) in out.iter().enumerate() {
        assert_eq!(placed.tile.i, p % 132);
        assert_eq!(placed.position.v, cell_position(p, 1));
    }
}

#[test]
fn decode_layer_takes_large_raw_values() {
    let layer = vec![usize::MAX];
    assert_eq!(decode_layer(&layer, 0), vec![placement(-16, 16, 0, usize::MAX - 1)]);
}

#[test]
fn decode_scene_without_layers_is_empty() {
    let scene = Scene { layers: Vec::new() };
    assert_eq!(decode_scene(&scene), Vec::new());
    assert_eq!(load_scene(&scene), Ok(Vec::new()));
}

#[test]
fn decode_scene_with_empty_layers_is_empty() {
    let scene = Scene { layers: vec![Vec::new(), Vec::new(), blank_layer()] };
    assert_eq!(decode_scene(&scene), Vec::new());
}

#[test]
fn decode_scene_counts_depth_up_from_the_back() {
    let scene = Scene { layers: vec![vec![3, 0, 4], vec![0, 9], vec![], vec![1]] };
    assert_eq!(
        decode_scene(&scene),
        vec![
            placement(-16, 16, 0, 2),
            placement(-14, 16, 0, 3),
            placement(-15, 16, 1, 8),
            placement(-16, 16, 3, 0),
        ]
    );
}

#[test]
fn decode_scene_gives_each_tile_a_cell_of_its_own() {
    let mut back = blank_layer();
    let mut front = blank_layer();
    back[40] = 2;
    back[41] = 2;
    front[40] = 3;
    let out = decode_scene(&Scene { layers: vec![back, front] });
    assert_eq!(out.len(), 3);
    for i in 0..out.len() {
        for j in 0..i {
            assert_ne!(out[i].position, out[j].position);
        }
    }
}

#[test]
fn load_scene_decodes_a_well_formed_scene() {
    let mut back = blank_layer();
    let mut front = blank_layer();
    back[0] = 1;
    back[1023] = 132;
    front[33] = 96;
    let scene = Scene { layers: vec![back, front] };
    assert_eq!(validate_scene(&scene), Ok(()));
    assert_eq!(
        load_scene(&scene),
        Ok(vec![placement(-16, 16, 0, 0), placement(15, -15, 0, 131), placement(-15, 15, 1, 95)])
    );
    assert_eq!(load_scene(&scene), Ok(decode_scene(&scene)));
}

#[test]
fn load_scene_reports_a_short_layer() {
    let scene = Scene { layers: vec![blank_layer(), vec![0; LAYER_CELLS - 1], blank_layer()] };
    assert_eq!(validate_scene(&scene), Err(SceneError::LayerLength { layer: 1 }));
    assert_eq!(load_scene(&scene), Err(SceneError::LayerLength { layer: 1 }));
}

#[test]
fn load_scene_reports_a_long_layer() {
    let scene = Scene { layers: vec![vec![0; LAYER_CELLS + 1]] };
    assert_eq!(load_scene(&scene), Err(SceneError::LayerLength { layer: 0 }));
}

#[test]
fn load_scene_reports_an_empty_layer() {
    let scene = Scene { layers: vec![Vec::new()] };
    assert_eq!(load_scene(&scene), Err(SceneError::LayerLength { layer: 0 }));
}

#[test]
fn load_scene_reports_a_sprite_beyond_the_atlas() {
    let mut layer = blank_layer();
    layer[7] = 132;
    layer[8] = 133;
    layer[9] = 500;
    let scene = Scene { layers: vec![blank_layer(), blank_layer(), layer] };
    assert_eq!(validate_scene(&scene), Err(SceneError::SpriteIndex { layer: 2, cell: 8 }));
    assert_eq!(load_scene(&scene), Err(SceneError::SpriteIndex { layer: 2, cell: 8 }));
}

#[test]
fn load_scene_reports_the_first_defect_only() {
    let mut bad_sprite = blank_layer();
    bad_sprite[1023] = 1000;
    let scene = Scene { layers: vec![bad_sprite, vec![1, 2, 3]] };
    assert_eq!(load_scene(&scene), Err(SceneError::SpriteIndex { layer: 0, cell: 1023 }));
    let mut wrong_length = vec![0; 10];
    wrong_length[0] = 1000;
    let scene = Scene { layers: vec![wrong_length] };
    assert_eq!(load_scene(&scene), Err(SceneError::LayerLength { layer: 0 }));
}

#[test]
fn layer_count_within_the_depths() {
    assert_eq!(check_layer_count(0), Ok(()));
    assert_eq!(check_layer_count(2), Ok(()));
    assert_eq!(check_layer_count(MAX_LAYERS), Ok(()));
}

#[test]
fn layer_count_beyond_the_depths() {
    assert_eq!(check_layer_count(MAX_LAYERS + 1), Err(SceneError::TooManyLayers));
    assert_eq!(check_layer_count(usize::MAX), Err(SceneError::TooManyLayers));
}
