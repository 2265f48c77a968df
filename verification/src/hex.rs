//! The hexagonal tile grid shown by the map view: tiles in axial coordinates
//! (q, r), their terrain, and their owner as mirrored from the game state.
use vstd::prelude::*;
use crate::state::GameState;

verus! {

#[derive(Debug, Clone, Copy, PartialEq, Eq, Structural)]
pub enum TerrainType {
    Land,
    Water,
    Mountain,
    Forest,
    Desert,
}

/// A hexagonal tile of the map view.
#[derive(Debug, Clone, Copy, PartialEq, Eq, Structural)]
pub struct HexTile {
    pub q: i32,
    pub r: i32,
    pub terrain_type: TerrainType,
    pub owner: Option<u32>,
}

/// Radius of the demonstration grid.
pub const GRID_RADIUS: i32 = 5;

/// A cell of the demonstration grid: both coordinates and their sum lie in
/// [-5, 5].
pub open spec fn in_grid(q: int, r: int) -> bool {
    -5 <= q <= 5 && -5 <= r <= 5 && -5 <= q + r <= 5
}

/// Terrain of a demonstration cell: water where q + r is a multiple of three,
/// a mountain at the origin otherwise, land elsewhere.
pub open spec fn spec_hex_terrain(q: int, r: int) -> TerrainType {
    if (q + r) % 3 == 0 {
        TerrainType::Water
    } else if q == 0 && r == 0 {
        TerrainType::Mountain
    } else {
        TerrainType::Land
    }
}

/// Cells in row-major order: by q, then by r.
pub open spec fn cell_before(a: HexTile, b: HexTile) -> bool {
    a.q < b.q || (a.q == b.q && a.r < b.r)
}

/// Terrain of a demonstration cell.
pub fn hex_terrain(q: i32, r: i32) -> (t: TerrainType)
    requires
        in_grid(q as int, r as int),
    ensures
        t == spec_hex_terrain(q as int, r as int),
{
    if (q + r) % 3 == 0 {
        TerrainType::Water
    } else if q == 0 && r == 0 {
        TerrainType::Mountain
    } else {
        TerrainType::Land
    }
}

/// The demonstration grid: every cell of radius five, in order of q then r,
/// each with its terrain and no owner.
pub fn demo_hex_tiles() -> (tiles: Vec<HexTile>)
    ensures
        forall|i: int|
            0 <= i < tiles@.len() ==> {
                let t = #[trigger] tiles@[i];
                &&& in_grid(t.q as int, t.r as int)
                &&& t.terrain_type == spec_hex_terrain(t.q as int, t.r as int)
                &&& t.owner is None
            },
        forall|i: int, j: int| 0 <= i < j < tiles@.len() ==> cell_before(tiles@[i], tiles@[j]),
        forall|q: int, r: int|
            in_grid(q, r) ==> exists|i: int|
                0 <= i < tiles@.len() && (#[trigger] tiles@[i]).q == q && tiles@[i].r == r,
{
    let mut tiles: Vec<HexTile> = Vec::new();
    let mut q: i32 = -GRID_RADIUS;
    while q <= GRID_RADIUS
        invariant
            -5 <= q <= 6,
            forall|i: int|
                0 <= i < tiles@.len() ==> {
                    let t = #[trigger] tiles@[i];
                    &&& in_grid(t.q as int, t.r as int)
                    &&& t.terrain_type == spec_hex_terrain(t.q as int, t.r as int)
                    &&& t.owner is None
                    &&& t.q < q
                },
            forall|i: int, j: int| 0 <= i < j < tiles@.len() ==> cell_before(tiles@[i], tiles@[j]),
            forall|qq: int, rr: int|
                in_grid(qq, rr) && qq < q ==> exists|i: int|
                    0 <= i < tiles@.len() && (#[trigger] tiles@[i]).q == qq && tiles@[i].r == rr,
        decreases 6 - q,
    {
        let mut r: i32 = -GRID_RADIUS;
        let ghost start = tiles@.len();
        while r <= GRID_RADIUS
            invariant
                -5 <= q <= 5,
                -5 <= r <= 6,
                start <= tiles@.len(),
                forall|i: int|
                    0 <= i < tiles@.len() ==> {
                        let t = #[trigger] tiles@[i];
                        &&& in_grid(t.q as int, t.r as int)
                        &&& t.terrain_type == spec_hex_terrain(t.q as int, t.r as int)
                        &&& t.owner is None
                        &&& t.q <= q
                        &&& (i >= start ==> t.q == q && t.r < r)
                        &&& (i < start ==> t.q < q)
                    },
                forall|i: int, j: int|
                    0 <= i < j < tiles@.len() ==> cell_before(tiles@[i], tiles@[j]),
                forall|qq: int, rr: int|
                    in_grid(qq, rr) && (qq < q || (qq == q && rr < r)) ==> exists|i: int|
                        0 <= i < tiles@.len() && (#[trigger] tiles@[i]).q == qq && tiles@[i].r
                            == rr,
            decreases 6 - r,
        {
            if q + r < -GRID_RADIUS || q + r > GRID_RADIUS {
                r = r + 1;
                continue;
            }
            let terrain_type = hex_terrain(q, r);
            let ghost before = tiles@;
            tiles.push(HexTile { q, r, terrain_type, owner: None });
            proof {
                let n = before.len() as int;
                assert(tiles@[n].q == q && tiles@[n].r == r);
                assert forall|qq: int, rr: int|
                    in_grid(qq, rr) && (qq < q || (qq == q && rr < r + 1)) implies exists|i: int|
                        0 <= i < tiles@.len() && (#[trigger] tiles@[i]).q == qq && tiles@[i].r
                            == rr by {
                    if qq == q && rr == r {
                        assert(tiles@[n].q == qq);
                    } else {
                        let i = choose|i: int|
                            0 <= i < before.len() && (#[trigger] before[i]).q == qq && before[i].r
                                == rr;
                        assert(tiles@[i] == before[i]);
                    }
                }
            }
            r = r + 1;
        }
        q = q + 1;
    }
    tiles
}

/// Mirrors the owner of the territory at the tile's position onto the tile;
/// a tile without a territory keeps its owner.
pub fn sync_tile_owner(game_state: &GameState, tile: &mut HexTile)
    ensures
        final(tile).q == old(tile).q,
        final(tile).r == old(tile).r,
        final(tile).terrain_type == old(tile).terrain_type,
        final(tile).owner == (if game_state.territory_map().contains_key((old(tile).q, old(tile).r)) {
            game_state.territory_map()[(old(tile).q, old(tile).r)].owner
        } else {
            old(tile).owner
        }),
{
    let position = (tile.q, tile.r);
    if let Some(territory) = game_state.get_territory(position) {
        tile.owner = territory.owner;
    }
}

/// A demonstration cell is water exactly when q + r is a multiple of three
/// (three times its own third), and land otherwise; the origin, where
/// q + r = 0, is water like every other such cell.
pub proof fn lemma_hex_water_every_third_diagonal(q: int, r: int)
    ensures
        (spec_hex_terrain(q, r) == TerrainType::Water) <==> (q + r == 3 * ((q + r) / 3)),
        (spec_hex_terrain(q, r) != TerrainType::Water) ==> spec_hex_terrain(q, r) == TerrainType::Land,
{
}

/// Moving along a diagonal (q + 1, r - 1) or three steps along q keeps the
/// terrain, and the two cells after a water cell along q are land.
pub proof fn lemma_hex_terrain_steps(q: int, r: int)
    ensures
        spec_hex_terrain(q + 1, r - 1) == spec_hex_terrain(q, r),
        spec_hex_terrain(q + 3, r) == spec_hex_terrain(q, r),
        spec_hex_terrain(q, r) == TerrainType::Water ==> spec_hex_terrain(q + 1, r)
            == TerrainType::Land && spec_hex_terrain(q + 2, r) == TerrainType::Land,
{
}

} // verus!
