//! The built-in demonstration world: a map with three islands and two
//! players' territories on it.
use vstd::prelude::*;
use crate::map::{GameMap, MapModel, TileRef, word_with_owner, owner_bits};

verus! {

/// Side length of the demonstration map.
pub const TEST_MAP_SIZE: usize = 100;

/// A cell of one of the three demonstration islands.
pub open spec fn test_island(x: int, y: int) -> bool {
    ||| (10 < x < 30 && 10 < y < 30)
    ||| (40 < x < 70 && 20 < y < 60)
    ||| (60 < x < 90 && 60 < y < 90)
}

/// The terrain byte of a demonstration cell: the land bit on islands, 0 elsewhere.
pub open spec fn test_terrain_byte(x: int, y: int) -> u8 {
    if test_island(x, y) {
        0x80
    } else {
        0
    }
}

/// The owner written into a demonstration cell: player 1 on [15, 25) x [15, 25),
/// player 2 on [45, 65) x [30, 50), nobody elsewhere.
pub open spec fn test_owner(x: int, y: int) -> u16 {
    if 15 <= x < 25 && 15 <= y < 25 {
        1
    } else if 45 <= x < 65 && 30 <= y < 50 {
        2
    } else {
        0
    }
}

/// Terrain bytes of a `width` x `height` demonstration map, row by row.
pub fn test_terrain(width: usize, height: usize) -> (terrain: Vec<u8>)
    requires
        width * height <= usize::MAX,
    ensures
        terrain@.len() == width * height,
        forall|x: int, y: int|
            0 <= x < width && 0 <= y < height ==> #[trigger] terrain@[y * width + x]
                == test_terrain_byte(x, y),
{
    let mut terrain_data: Vec<u8> = Vec::new();
    let mut y: usize = 0;
    while y < height
        invariant
            width * height <= usize::MAX,
            y <= height,
            terrain_data@.len() == y * width,
            forall|xx: int, yy: int|
                0 <= xx < width && 0 <= yy < y ==> #[trigger] terrain_data@[yy * width + xx]
                    == test_terrain_byte(xx, yy),
        decreases height - y,
    {
        let mut x: usize = 0;
        let ghost row_start = terrain_data@.len() as int;
        while x < width
            invariant
                y < height,
                x <= width,
                row_start == y * width,
                terrain_data@.len() == y * width + x,
                forall|xx: int, yy: int|
                    0 <= xx < width && 0 <= yy < y ==> #[trigger] terrain_data@[yy * width + xx]
                        == test_terrain_byte(xx, yy),
                forall|xx: int| 0 <= xx < x ==> #[trigger] terrain_data@[row_start + xx] == test_terrain_byte(xx, y as int),
            decreases width - x,
        {
            let is_land = (x > 10 && x < 30 && y > 10 && y < 30) || (x > 40 && x < 70 && y > 20
                && y < 60) || (x > 60 && x < 90 && y > 60 && y < 90);
            let mut byte: u8 = 0;
            if is_land {
                byte = byte | 0x80u8;
            }
            proof {
                assert(0u8 | 0x80u8 == 0x80u8) by (bit_vector);
            }
            let ghost before = terrain_data@;
            terrain_data.push(byte);
            proof {
                assert forall|xx: int, yy: int|
                    0 <= xx < width && 0 <= yy < y implies #[trigger] terrain_data@[yy * width + xx]
                        == test_terrain_byte(xx, yy) by {
                    lemma_earlier_row(xx, yy, y as int, width as int);
                    assert(terrain_data@[yy * width + xx] == before[yy * width + xx]);
                }
            }
            x = x + 1;
        }
        proof {
            assert((y + 1) * width == y * width + width) by (nonlinear_arith);
            assert forall|xx: int, yy: int|
                0 <= xx < width && 0 <= yy < y + 1 implies #[trigger] terrain_data@[yy * width + xx]
                    == test_terrain_byte(xx, yy) by {
                if yy == y {
                    assert(terrain_data@[row_start + xx] == test_terrain_byte(xx, y as int));
                }
            }
        }
        y = y + 1;
    }
    proof {
        assert(height * width == width * height) by (nonlinear_arith);
    }
    terrain_data
}

/// A cell of an earlier row comes before the start of row `y`.
proof fn lemma_earlier_row(xx: int, yy: int, y: int, width: int)
    requires
        0 <= xx < width,
        0 <= yy < y,
    ensures
        0 <= yy * width + xx < y * width,
{
    assert(yy * width + xx < (yy + 1) * width) by (nonlinear_arith)
        requires
            xx < width,
    ;
    assert((yy + 1) * width <= y * width) by (nonlinear_arith)
        requires
            yy + 1 <= y,
            width >= 0,
    ;
    assert(0 <= yy * width) by (nonlinear_arith)
        requires
            yy >= 0,
            width >= 0,
    ;
}

/// Whether (x, y) lies in the rectangle [x0, x1) x [y0, y1).
pub open spec fn in_rect(x: int, y: int, x0: int, x1: int, y0: int, y1: int) -> bool {
    x0 <= x < x1 && y0 <= y < y1
}

/// Writes `id` as the owner of every tile of a rectangle of a 100 x 100 map.
fn assign_rect(map: &mut GameMap, x0: usize, x1: usize, y0: usize, y1: usize, id: u16)
    requires
        old(map).wf(),
        old(map)@.width == TEST_MAP_SIZE,
        old(map)@.height == TEST_MAP_SIZE,
        x1 <= TEST_MAP_SIZE,
        y1 <= TEST_MAP_SIZE,
    ensures
        final(map).wf(),
        final(map)@.width == old(map)@.width,
        final(map)@.height == old(map)@.height,
        final(map)@.terrain == old(map)@.terrain,
        final(map)@.num_land_tiles == old(map)@.num_land_tiles,
        final(map)@.state.len() == old(map)@.state.len(),
        forall|x: int, y: int|
            0 <= x < 100 && 0 <= y < 100 ==> #[trigger] final(map)@.state[y * 100 + x] == if in_rect(
                x,
                y,
                x0 as int,
                x1 as int,
                y0 as int,
                y1 as int,
            ) {
                word_with_owner(old(map)@.state[y * 100 + x], id)
            } else {
                old(map)@.state[y * 100 + x]
            },
{
    let ghost orig = map@;
    assert(orig.width * orig.height == 10000) by (nonlinear_arith)
        requires
            orig.width == 100,
            orig.height == 100,
    ;
    let mut y = y0;
    while y < y1
        invariant
            map.wf(),
            map@.width == 100,
            map@.height == 100,
            map@.terrain == orig.terrain,
            map@.num_land_tiles == orig.num_land_tiles,
            map@.state.len() == orig.state.len(),
            orig.state.len() == 10000,
            y1 <= 100,
            x1 <= 100,
            y0 <= y,
            y <= y1 || y == y0,
            forall|xx: int, yy: int|
                0 <= xx < 100 && 0 <= yy < 100 ==> #[trigger] map@.state[yy * 100 + xx] == if in_rect(
                    xx,
                    yy,
                    x0 as int,
                    x1 as int,
                    y0 as int,
                    y as int,
                ) {
                    word_with_owner(orig.state[yy * 100 + xx], id)
                } else {
                    orig.state[yy * 100 + xx]
                },
        decreases y1 - y,
    {
        let mut x = x0;
        while x < x1
            invariant
                map.wf(),
                map@.width == 100,
                map@.height == 100,
                map@.terrain == orig.terrain,
                map@.num_land_tiles == orig.num_land_tiles,
                map@.state.len() == orig.state.len(),
                orig.state.len() == 10000,
                y1 <= 100,
                x1 <= 100,
                y0 <= y < y1,
                x0 <= x,
                x <= x1 || x == x0,
                forall|xx: int, yy: int|
                    0 <= xx < 100 && 0 <= yy < 100 ==> #[trigger] map@.state[yy * 100 + xx] == if in_rect(
                        xx,
                        yy,
                        x0 as int,
                        x1 as int,
                        y0 as int,
                        y as int,
                    ) || (yy == y && x0 <= xx < x) {
                        word_with_owner(orig.state[yy * 100 + xx], id)
                    } else {
                        orig.state[yy * 100 + xx]
                    },
            decreases x1 - x,
        {
            let t = map.ref_from_xy(x, y);
            map.set_owner_id(t, id);
            x = x + 1;
        }
        y = y + 1;
    }
}

/// The demonstration map: 100 x 100 tiles with three islands, player 1 owning
/// [15, 25) x [15, 25) and player 2 owning [45, 65) x [30, 50).
pub fn setup_test_map() -> (map: GameMap)
    ensures
        map.wf(),
        map@.width == TEST_MAP_SIZE,
        map@.height == TEST_MAP_SIZE,
        map@.terrain.len() == 10000,
        forall|x: int, y: int|
            0 <= x < 100 && 0 <= y < 100 ==> #[trigger] map@.terrain[y * 100 + x] == test_terrain_byte(
                x,
                y,
            ),
        forall|x: int, y: int|
            0 <= x < 100 && 0 <= y < 100 ==> #[trigger] map@.state[y * 100 + x] == test_owner(x, y),
{
    let width = TEST_MAP_SIZE;
    let height = TEST_MAP_SIZE;
    let terrain_data = test_terrain(width, height);
    let mut game_map = GameMap::new(width, height, terrain_data);
    assert(word_with_owner(0u16, 1u16) == 1u16 && word_with_owner(0u16, 2u16) == 2u16) by (bit_vector);
    let ghost s0 = game_map@.state;
    assign_rect(&mut game_map, 15, 25, 15, 25, 1);
    let ghost s1 = game_map@.state;
    assign_rect(&mut game_map, 45, 65, 30, 50, 2);
    proof {
        assert forall|x: int, y: int|
            0 <= x < 100 && 0 <= y < 100 implies #[trigger] game_map@.state[y * 100 + x] == test_owner(x, y) by {
            assert(s0[y * 100 + x] == 0u16);
            assert(s1[y * 100 + x] == if in_rect(x, y, 15, 25, 15, 25) { 1u16 } else { 0u16 });
        }
    }
    game_map
}

/// Both demonstration territories lie on land: every owned cell is an island
/// cell.
pub proof fn lemma_test_territories_on_land(x: int, y: int)
    ensures
        test_owner(x, y) != 0 ==> test_island(x, y),
{
}
} // verus!
