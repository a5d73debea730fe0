//! Decoding a layered tile map into placed tiles.
//!
//! A scene is a stack of layers. Each layer lists its cells row by row from
//! the top left, `MAP_WIDTH` cells to a row. A cell holds `0` for "nothing
//! here" or a sprite number counted from one. The map is centred on the
//! origin of the grid, and the layer's place in the stack becomes the depth.

use vstd::prelude::*;
use crate::position::Position;
use crate::vectors::{fits_component, Vector3Int};

verus! {

/// Cells in one row of a layer.
pub const MAP_WIDTH: usize = 32;

/// Rows in a well-formed layer.
pub const MAP_HEIGHT: usize = 32;

/// Cells in a well-formed layer.
pub const LAYER_CELLS: usize = MAP_WIDTH * MAP_HEIGHT;

/// Sprite cells in one row of the texture atlas.
pub const ATLAS_COLUMNS: usize = 12;

/// Rows of sprite cells in the texture atlas.
pub const ATLAS_ROWS: usize = 11;

/// Sprite cells in the texture atlas; sprite indices run below this.
pub const ATLAS_CELLS: usize = ATLAS_COLUMNS * ATLAS_ROWS;

/// The most layers a scene can have for each to get a depth of its own.
pub const MAX_LAYERS: usize = 0x8000_0000;

/// A tile map as it is stored: layers from back to front, each a flat list
/// of raw cell values.
#[derive(Debug)]
pub struct Scene {
    pub layers: Vec<Vec<usize>>,
}

impl View for Scene {
    type V = Seq<Seq<usize>>;

    open spec fn view(&self) -> Seq<Seq<usize>> {
        Seq::new(self.layers@.len(), |l: int| self.layers@[l]@)
    }
}

/// The sprite shown by a placed tile: an index into the texture atlas,
/// counted from zero.
#[derive(Clone, Copy, Debug, PartialEq, Eq, Hash, Structural)]
pub struct Tile {
    pub i: usize,
}

/// One decoded tile: where it stands and what it shows.
#[derive(Clone, Copy, Debug, PartialEq, Eq, Hash, Structural)]
pub struct TilePlacement {
    pub position: Position,
    pub tile: Tile,
}

/// Column of cell `p`, the map centred on the origin.
pub open spec fn cell_x(p: int) -> int {
    p % (MAP_WIDTH as int) - MAP_WIDTH / 2
}

/// Row of cell `p`, counted upward: the first row of a layer is the top one.
pub open spec fn cell_y(p: int) -> int {
    MAP_HEIGHT / 2 - p / (MAP_WIDTH as int)
}

/// The grid cell of flat position `p` in the layer of depth `z`.
pub open spec fn cell_at(p: int, z: int) -> Vector3Int {
    Vector3Int { x: cell_x(p) as i32, y: cell_y(p) as i32, z: z as i32 }
}

/// The flat position that a grid cell came from.
pub open spec fn cell_index(v: Vector3Int) -> int {
    (MAP_HEIGHT / 2 - v.y) * MAP_WIDTH + (v.x + MAP_WIDTH / 2)
}

/// The tile that a non-empty cell decodes to.
pub open spec fn placement_of(p: int, z: int, raw: usize) -> TilePlacement {
    TilePlacement {
        position: Position { v: cell_at(p, z) },
        tile: Tile { i: (raw - 1) as usize },
    }
}

/// The placements of one layer: its non-empty cells in stored order.
pub open spec fn decode_layer_spec(layer: Seq<usize>, z: int) -> Seq<TilePlacement>
    decreases layer.len(),
{
    if layer.len() == 0 {
        Seq::empty()
    } else {
        let before = decode_layer_spec(layer.drop_last(), z);
        if layer.last() == 0 {
            before
        } else {
            before.push(placement_of(layer.len() - 1, z, layer.last()))
        }
    }
}

/// The placements of a scene: those of its layers, back to front, each
/// layer at the depth of its place in the stack.
pub open spec fn decode_scene_spec(layers: Seq<Seq<usize>>) -> Seq<TilePlacement>
    decreases layers.len(),
{
    if layers.len() == 0 {
        Seq::empty()
    } else {
        decode_scene_spec(layers.drop_last()) + decode_layer_spec(
            layers.last(),
            layers.len() - 1,
        )
    }
}

/// Whether the row of flat position `p` is a value of a grid component.
pub open spec fn cell_fits(p: int) -> bool {
    0 <= p && fits_component(cell_y(p))
}

/// Whether every cell of a layer of `len` cells has a row on the grid.
pub open spec fn layer_fits(len: nat) -> bool {
    len == 0 || cell_fits(len - 1)
}

/// Whether every layer of the scene gets a depth and every cell a row.
pub open spec fn scene_fits(layers: Seq<Seq<usize>>) -> bool {
    &&& layers.len() <= MAX_LAYERS
    &&& forall|l: int| 0 <= l < layers.len() ==> layer_fits(#[trigger] layers[l].len())
}

/// The grid cell of flat position `p` in the layer of depth `z`.
pub fn cell_position(p: usize, z: i32) -> (v: Vector3Int)
    requires
        cell_fits(p as int),
    ensures
        v == cell_at(p as int, z as int),
        v.x == p % 32 - 16,
        v.y == 16 - p / 32,
        v.z == z,
{
    let column: usize = p % MAP_WIDTH;
    let row: usize = p / MAP_WIDTH;
    let x: i64 = column as i64 - (MAP_WIDTH / 2) as i64;
    let y: i64 = (MAP_HEIGHT / 2) as i64 - row as i64;
    Vector3Int { x: x as i32, y: y as i32, z }
}

/// Appends the placements of one layer to `out`.
fn decode_layer_into(layer: &Vec<usize>, z: i32, out: &mut Vec<TilePlacement>)
    requires
        layer_fits(layer@.len()),
    ensures
        final(out)@ == old(out)@ + decode_layer_spec(layer@, z as int),
{
    let n: usize = layer.len();
    let mut p: usize = 0;
    assert(layer@.take(0) =~= Seq::<usize>::empty());
    while p < n
        invariant
            n == layer@.len(),
            p <= n,
            layer_fits(layer@.len()),
            out@ == old(out)@ + decode_layer_spec(layer@.take(p as int), z as int),
        decreases n - p,
    {
        let raw: usize = layer[p];
        proof {
            assert(layer@.take(p + 1).drop_last() =~= layer@.take(p as int));
            assert(layer@.take(p + 1).last() == raw);
        }
        if raw != 0 {
            let v = cell_position(p, z);
            out.push(TilePlacement { position: Position { v }, tile: Tile { i: raw - 1 } });
        }
        p = p + 1;
    }
    assert(layer@.take(n as int) =~= layer@);
}

/// Decodes one layer at depth `z`: one placement for each non-empty cell,
/// in stored order, showing the sprite one below the cell's raw value.
pub fn decode_layer(layer: &Vec<usize>, z: i32) -> (out: Vec<TilePlacement>)
    requires
        layer_fits(layer@.len()),
    ensures
        out@ == decode_layer_spec(layer@, z as int),
{
    let mut out: Vec<TilePlacement> = Vec::new();
    decode_layer_into(layer, z, &mut out);
    out
}

/// Decodes a scene: the placements of its layers from back to front, the
/// first layer at depth 0 and each later one a step in front of the last.
pub fn decode_scene(scene: &Scene) -> (out: Vec<TilePlacement>)
    requires
        scene_fits(scene@),
    ensures
        out@ == decode_scene_spec(scene@),
{
    let mut out: Vec<TilePlacement> = Vec::new();
    let n: usize = scene.layers.len();
    let mut l: usize = 0;
    assert(scene@.take(0) =~= Seq::<Seq<usize>>::empty());
    while l < n
        invariant
            n == scene@.len(),
            n == scene.layers@.len(),
            l <= n,
            scene_fits(scene@),
            out@ == decode_scene_spec(scene@.take(l as int)),
        decreases n - l,
    {
        proof {
            assert(scene@.take(l + 1).drop_last() =~= scene@.take(l as int));
            assert(scene@.take(l + 1).last() == scene.layers@[l as int]@);
            assert(layer_fits(scene@[l as int].len()));
        }
        decode_layer_into(&scene.layers[l], l as i32, &mut out);
        l = l + 1;
    }
    assert(scene@.take(n as int) =~= scene@);
    out
}

/// What is wrong with a stored scene.
#[derive(Clone, Copy, Debug, PartialEq, Eq, Structural)]
pub enum SceneError {
    /// The scene has more layers than there are depths.
    TooManyLayers,
    /// Layer `layer` does not hold `LAYER_CELLS` cells.
    LayerLength { layer: usize },
    /// Cell `cell` of layer `layer` names a sprite beyond the atlas.
    SpriteIndex { layer: usize, cell: usize },
}

/// A layer is well formed when it covers the whole map and every cell is
/// empty or names a sprite of the atlas.
pub open spec fn layer_valid(layer: Seq<usize>) -> bool {
    &&& layer.len() == LAYER_CELLS
    &&& forall|p: int| 0 <= p < layer.len() ==> #[trigger] layer[p] <= ATLAS_CELLS
}

/// A scene is well formed when each layer is and each gets a depth.
pub open spec fn scene_valid(layers: Seq<Seq<usize>>) -> bool {
    &&& layers.len() <= MAX_LAYERS
    &&& forall|l: int| 0 <= l < layers.len() ==> layer_valid(#[trigger] layers[l])
}

/// Whether `e` names the first thing wrong with the scene, going through
/// the layers from the back and through each layer's cells in stored order,
/// a layer's length coming before its cells.
pub open spec fn is_first_defect(layers: Seq<Seq<usize>>, e: SceneError) -> bool {
    match e {
        SceneError::TooManyLayers => layers.len() > MAX_LAYERS,
        SceneError::LayerLength { layer } => {
            &&& layers.len() <= MAX_LAYERS
            &&& layer < layers.len()
            &&& forall|l: int| 0 <= l < layer ==> layer_valid(#[trigger] layers[l])
            &&& layers[layer as int].len() != LAYER_CELLS
        },
        SceneError::SpriteIndex { layer, cell } => {
            &&& layers.len() <= MAX_LAYERS
            &&& layer < layers.len()
            &&& forall|l: int| 0 <= l < layer ==> layer_valid(#[trigger] layers[l])
            &&& layers[layer as int].len() == LAYER_CELLS
            &&& cell < LAYER_CELLS
            &&& layers[layer as int][cell as int] > ATLAS_CELLS
            &&& forall|c: int| 0 <= c < cell ==> #[trigger] layers[layer as int][c] <= ATLAS_CELLS
        },
    }
}

/// Checks one layer: `None` when it is well formed, else the first thing
/// wrong with it, as it would be reported for layer number `l`.
fn check_layer(layer: &Vec<usize>, l: usize) -> (r: Option<SceneError>)
    ensures
        r is None <==> layer_valid(layer@),
        r is Some ==> {
            ||| r.unwrap() == (SceneError::LayerLength { layer: l }) && layer@.len() != LAYER_CELLS
            ||| exists|cell: usize|
                {
                    &&& r.unwrap() == (SceneError::SpriteIndex { layer: l, cell })
                    &&& layer@.len() == LAYER_CELLS
                    &&& cell < LAYER_CELLS
                    &&& layer@[cell as int] > ATLAS_CELLS
                    &&& forall|c: int| 0 <= c < cell ==> #[trigger] layer@[c] <= ATLAS_CELLS
                }
        },
{
    if layer.len() != LAYER_CELLS {
        return Some(SceneError::LayerLength { layer: l });
    }
    let mut cell: usize = 0;
    while cell < LAYER_CELLS
        invariant
            layer@.len() == LAYER_CELLS,
            cell <= LAYER_CELLS,
            forall|c: int| 0 <= c < cell ==> #[trigger] layer@[c] <= ATLAS_CELLS,
        decreases LAYER_CELLS - cell,
    {
        if layer[cell] > ATLAS_CELLS {
            return Some(SceneError::SpriteIndex { layer: l, cell });
        }
        cell = cell + 1;
    }
    None
}

/// Checks that a scene of `count` layers has a depth for each of them.
pub fn check_layer_count(count: usize) -> (r: Result<(), SceneError>)
    ensures
        r is Ok <==> count <= MAX_LAYERS,
        r is Err ==> r == Err::<(), SceneError>(SceneError::TooManyLayers),
{
    if count > MAX_LAYERS {
        Err(SceneError::TooManyLayers)
    } else {
        Ok(())
    }
}

/// Checks a stored scene, reporting the first thing wrong with it.
pub fn validate_scene(scene: &Scene) -> (r: Result<(), SceneError>)
    ensures
        r is Ok <==> scene_valid(scene@),
        r matches Err(e) ==> is_first_defect(scene@, e),
{
    let n: usize = scene.layers.len();
    match check_layer_count(n) {
        Err(e) => {
            return Err(e);
        },
        Ok(_) => {},
    }
    let mut l: usize = 0;
    while l < n
        invariant
            n == scene@.len(),
            n == scene.layers@.len(),
            n <= MAX_LAYERS,
            l <= n,
            forall|k: int| 0 <= k < l ==> layer_valid(#[trigger] scene@[k]),
        decreases n - l,
    {
        assert(scene@[l as int] == scene.layers@[l as int]@);
        match check_layer(&scene.layers[l], l) {
            Some(e) => {
                return Err(e);
            },
            None => {},
        }
        l = l + 1;
    }
    Ok(())
}

/// Decodes a stored scene after checking it: the placements of a well-formed
/// scene, or the first thing wrong with one that is not.
pub fn load_scene(scene: &Scene) -> (r: Result<Vec<TilePlacement>, SceneError>)
    ensures
        r is Ok <==> scene_valid(scene@),
        r matches Ok(out) ==> out@ == decode_scene_spec(scene@),
        r matches Err(e) ==> is_first_defect(scene@, e),
{
    match validate_scene(scene) {
        Err(e) => Err(e),
        Ok(_) => {
            proof {
                lemma_valid_scene_fits(scene@);
            }
            Ok(decode_scene(scene))
        },
    }
}

/// A well-formed scene is within what the decoder can place on the grid.
pub proof fn lemma_valid_scene_fits(layers: Seq<Seq<usize>>)
    requires
        scene_valid(layers),
    ensures
        scene_fits(layers),
{
    assert forall|l: int| 0 <= l < layers.len() implies layer_fits(#[trigger] layers[l].len()) by {
        assert(layer_valid(layers[l]));
    }
}

/// At most one error names the first thing wrong with a scene, and none
/// does for a well-formed one.
pub proof fn lemma_first_defect_unique(layers: Seq<Seq<usize>>, e1: SceneError, e2: SceneError)
    requires
        is_first_defect(layers, e1),
    ensures
        !scene_valid(layers),
        is_first_defect(layers, e2) ==> e1 == e2,
{
    match e1 {
        SceneError::TooManyLayers => {},
        SceneError::LayerLength { layer } => {
            assert(!layer_valid(layers[layer as int]));
        },
        SceneError::SpriteIndex { layer, cell } => {
            assert(!layer_valid(layers[layer as int]));
        },
    }
    if is_first_defect(layers, e2) {
        match (e1, e2) {
            (SceneError::LayerLength { layer: a }, SceneError::LayerLength { layer: b }) => {
                if a < b {
                    assert(layer_valid(layers[a as int]));
                } else if b < a {
                    assert(layer_valid(layers[b as int]));
                }
            },
            (SceneError::LayerLength { layer: a }, SceneError::SpriteIndex { layer: b, cell }) => {
                if a < b {
                    assert(layer_valid(layers[a as int]));
                } else if b < a {
                    assert(layer_valid(layers[b as int]));
                }
            },
            (SceneError::SpriteIndex { layer: a, cell }, SceneError::LayerLength { layer: b }) => {
                if a < b {
                    assert(layer_valid(layers[a as int]));
                } else if b < a {
                    assert(layer_valid(layers[b as int]));
                }
            },
            (
                SceneError::SpriteIndex { layer: a, cell: c },
                SceneError::SpriteIndex { layer: b, cell: d },
            ) => {
                if a < b {
                    assert(layer_valid(layers[a as int]));
                } else if b < a {
                    assert(layer_valid(layers[b as int]));
                }
            },
            _ => {},
        }
    }
}

/// A flat position whose row is on the grid is found again from its cell.
pub proof fn lemma_cell_index_inverts(p: int, z: int)
    requires
        cell_fits(p),
    ensures
        cell_index(cell_at(p, z)) == p,
        cell_at(p, z).x == p % 32 - 16,
        cell_at(p, z).y == 16 - p / 32,
        -16 <= cell_at(p, z).x <= 15,
{
}

/// Each placement of a layer comes from a cell of it that is not empty, and
/// shows the sprite one below that cell's raw value. The cell is returned.
/// So an empty cell places nothing, whatever the layer holds.
pub proof fn lemma_decode_layer_source(layer: Seq<usize>, z: int, i: int) -> (p: int)
    requires
        0 <= i < decode_layer_spec(layer, z).len(),
    ensures
        0 <= p < layer.len(),
        layer[p] >= 1,
        decode_layer_spec(layer, z)[i] == placement_of(p, z, layer[p]),
        decode_layer_spec(layer, z)[i].tile.i == layer[p] - 1,
    decreases layer.len(),
{
    let before = decode_layer_spec(layer.drop_last(), z);
    if layer.last() != 0 && i == before.len() {
        layer.len() - 1
    } else {
        lemma_decode_layer_source(layer.drop_last(), z, i)
    }
}

/// Each placement of a layer comes from a non-empty cell of it: it stands
/// at that cell and shows the sprite one below the cell's raw value.
pub proof fn lemma_decode_layer_sound(layer: Seq<usize>, z: int, i: int)
    requires
        layer_fits(layer.len()),
        0 <= i < decode_layer_spec(layer, z).len(),
    ensures
        ({
            let placed = decode_layer_spec(layer, z)[i];
            let p = cell_index(placed.position.v);
            &&& 0 <= p < layer.len()
            &&& layer[p] >= 1
            &&& placed.tile.i == layer[p] - 1
            &&& placed.position.v == cell_at(p, z)
            &&& placed == placement_of(p, z, layer[p])
        }),
    decreases layer.len(),
{
    let before = decode_layer_spec(layer.drop_last(), z);
    if layer.last() != 0 && i == before.len() {
        lemma_cell_index_inverts(layer.len() - 1, z);
    } else {
        lemma_decode_layer_sound(layer.drop_last(), z, i);
    }
}

/// The placements of a layer keep the stored order of their cells, so no
/// cell is placed twice.
pub proof fn lemma_decode_layer_ordered(layer: Seq<usize>, z: int, i: int, j: int)
    requires
        layer_fits(layer.len()),
        0 <= i < j < decode_layer_spec(layer, z).len(),
    ensures
        cell_index(decode_layer_spec(layer, z)[i].position.v) < cell_index(
            decode_layer_spec(layer, z)[j].position.v,
        ),
    decreases layer.len(),
{
    let before = decode_layer_spec(layer.drop_last(), z);
    if layer.last() != 0 && j == before.len() {
        lemma_cell_index_inverts(layer.len() - 1, z);
        lemma_decode_layer_sound(layer.drop_last(), z, i);
    } else {
        lemma_decode_layer_ordered(layer.drop_last(), z, i, j);
    }
}

/// Every cell of a layer that is not empty is placed.
pub proof fn lemma_decode_layer_complete(layer: Seq<usize>, z: int, p: int)
    requires
        0 <= p < layer.len(),
        layer[p] != 0,
    ensures
        decode_layer_spec(layer, z).contains(placement_of(p, z, layer[p])),
    decreases layer.len(),
{
    let before = decode_layer_spec(layer.drop_last(), z);
    let out = decode_layer_spec(layer, z);
    if p == layer.len() - 1 {
        assert(out[before.len() as int] == placement_of(p, z, layer[p]));
    } else {
        lemma_decode_layer_complete(layer.drop_last(), z, p);
        let k = choose|k: int|
            0 <= k < before.len() && before[k] == placement_of(p, z, layer.drop_last()[p]);
        assert(out[k] == placement_of(p, z, layer[p]));
    }
}

/// Dropping the front layer of a scene that fits leaves one that fits.
proof fn lemma_scene_fits_drop_last(layers: Seq<Seq<usize>>)
    requires
        scene_fits(layers),
        layers.len() > 0,
    ensures
        scene_fits(layers.drop_last()),
        layer_fits(layers.last().len()),
{
    assert forall|l: int| 0 <= l < layers.drop_last().len() implies layer_fits(
        #[trigger] layers.drop_last()[l].len(),
    ) by {
        assert(layers.drop_last()[l] == layers[l]);
    }
    assert(layers.last() == layers[layers.len() - 1]);
}

/// Each placement of a scene comes from a cell that is not empty of one of
/// its layers, and shows the sprite one below that cell's raw value. The
/// layer and the cell are returned.
pub proof fn lemma_decode_scene_source(layers: Seq<Seq<usize>>, i: int) -> (at: (int, int))
    requires
        0 <= i < decode_scene_spec(layers).len(),
    ensures
        0 <= at.0 < layers.len(),
        0 <= at.1 < layers[at.0].len(),
        layers[at.0][at.1] >= 1,
        decode_scene_spec(layers)[i] == placement_of(at.1, at.0, layers[at.0][at.1]),
        decode_scene_spec(layers)[i].tile.i == layers[at.0][at.1] - 1,
    decreases layers.len(),
{
    let before = decode_scene_spec(layers.drop_last());
    if i < before.len() {
        let at = lemma_decode_scene_source(layers.drop_last(), i);
        assert(layers.drop_last()[at.0] == layers[at.0]);
        at
    } else {
        let p = lemma_decode_layer_source(layers.last(), layers.len() - 1, i - before.len());
        (layers.len() - 1, p)
    }
}

/// Each placement of a scene comes from a non-empty cell of one of its
/// layers: its depth is that layer's place in the stack, it stands at that
/// cell, and it shows the sprite one below the cell's raw value.
pub proof fn lemma_decode_scene_sound(layers: Seq<Seq<usize>>, i: int)
    requires
        scene_fits(layers),
        0 <= i < decode_scene_spec(layers).len(),
    ensures
        ({
            let placed = decode_scene_spec(layers)[i];
            let l = placed.position.v.z as int;
            let p = cell_index(placed.position.v);
            &&& 0 <= l < layers.len()
            &&& 0 <= p < layers[l].len()
            &&& layers[l][p] >= 1
            &&& placed.tile.i == layers[l][p] - 1
            &&& placed == placement_of(p, l, layers[l][p])
        }),
    decreases layers.len(),
{
    let before = decode_scene_spec(layers.drop_last());
    lemma_scene_fits_drop_last(layers);
    if i < before.len() {
        lemma_decode_scene_sound(layers.drop_last(), i);
        let l = before[i].position.v.z as int;
        assert(layers.drop_last()[l] == layers[l]);
    } else {
        lemma_decode_layer_sound(layers.last(), layers.len() - 1, i - before.len());
    }
}

/// The placements of a scene come layer by layer from the back, and within
/// a layer in the stored order of its cells. So no two placements of a scene
/// stand at the same grid cell.
pub proof fn lemma_decode_scene_ordered(layers: Seq<Seq<usize>>, i: int, j: int)
    requires
        scene_fits(layers),
        0 <= i < j < decode_scene_spec(layers).len(),
    ensures
        ({
            let a = decode_scene_spec(layers)[i].position.v;
            let b = decode_scene_spec(layers)[j].position.v;
            &&& a.z < b.z || (a.z == b.z && cell_index(a) < cell_index(b))
            &&& a != b
        }),
    decreases layers.len(),
{
    let before = decode_scene_spec(layers.drop_last());
    lemma_scene_fits_drop_last(layers);
    if j < before.len() {
        lemma_decode_scene_ordered(layers.drop_last(), i, j);
    } else if i >= before.len() {
        let z = layers.len() - 1;
        lemma_decode_layer_ordered(layers.last(), z, i - before.len(), j - before.len());
        lemma_decode_layer_sound(layers.last(), z, i - before.len());
        lemma_decode_layer_sound(layers.last(), z, j - before.len());
    } else {
        lemma_decode_scene_sound(layers.drop_last(), i);
        lemma_decode_layer_sound(layers.last(), layers.len() - 1, j - before.len());
    }
}

/// A scene in which every cell of every layer is empty places nothing; so
/// does a scene without layers, or one whose layers have no cells.
pub proof fn lemma_decode_blank_scene(layers: Seq<Seq<usize>>)
    requires
        forall|l: int, p: int|
            0 <= l < layers.len() && 0 <= p < layers[l].len() ==> #[trigger] layers[l][p] == 0,
    ensures
        decode_scene_spec(layers) == Seq::<TilePlacement>::empty(),
{
    if decode_scene_spec(layers).len() > 0 {
        let at = lemma_decode_scene_source(layers, 0);
        assert(layers[at.0][at.1] == 0);
    }
    assert(decode_scene_spec(layers) =~= Seq::<TilePlacement>::empty());
}

/// Every non-empty cell of every layer of a scene is placed.
pub proof fn lemma_decode_scene_complete(layers: Seq<Seq<usize>>, l: int, p: int)
    requires
        0 <= l < layers.len(),
        0 <= p < layers[l].len(),
        layers[l][p] != 0,
    ensures
        decode_scene_spec(layers).contains(placement_of(p, l, layers[l][p])),
    decreases layers.len(),
{
    let before = decode_scene_spec(layers.drop_last());
    let last = decode_layer_spec(layers.last(), layers.len() - 1);
    let out = decode_scene_spec(layers);
    let wanted = placement_of(p, l, layers[l][p]);
    if l == layers.len() - 1 {
        lemma_decode_layer_complete(layers.last(), l, p);
        let k = choose|k: int| 0 <= k < last.len() && last[k] == wanted;
        assert(out[before.len() + k] == wanted);
    } else {
        assert(layers.drop_last()[l] == layers[l]);
        lemma_decode_scene_complete(layers.drop_last(), l, p);
        let k = choose|k: int| 0 <= k < before.len() && before[k] == wanted;
        assert(out[k] == wanted);
    }
}

} // verus!
