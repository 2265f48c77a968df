//! The tile map: a flat array of tiles, each holding one terrain byte and one
//! 16-bit state word, with lookup tables for coordinate conversion.
use vstd::prelude::*;
use vstd::arithmetic::div_mod::lemma_fundamental_div_mod_converse;

verus! {

/// Index of a tile in the flat tile array (`y * width + x`).
pub type TileRef = usize;

/// Kinds of terrain a tile may show.
#[derive(Debug, Clone, Copy, PartialEq, Eq, Structural)]
pub enum TerrainType {
    Land,
    Water,
    Mountain,
    Forest,
    Desert,
}

/// Bit 7 of a terrain byte: the tile is land.
pub open spec fn land_bit(b: u8) -> bool {
    b & 0x80u8 != 0
}

/// Bit 6 of a terrain byte: the tile lies on a shoreline.
pub open spec fn shore_bit(b: u8) -> bool {
    b & 0x40u8 != 0
}

/// The low twelve bits of a state word: the owning player, 0 for none.
pub open spec fn owner_bits(s: u16) -> u16 {
    s & 0xfffu16
}

/// Bit 13 of a state word: the tile carries fallout.
pub open spec fn fallout_bit(s: u16) -> bool {
    s & 0x2000u16 != 0
}

/// The owner that a state word records.
pub open spec fn owner_of_word(s: u16) -> Option<u16> {
    if owner_bits(s) == 0 {
        None
    } else {
        Some(owner_bits(s))
    }
}

/// The state word after `set_owner_id(_, player_id)`.
pub open spec fn word_with_owner(s: u16, player_id: u16) -> u16 {
    (s & !0xfffu16) | player_id
}

/// The state word after `set_fallout(_, value)`.
pub open spec fn word_with_fallout(s: u16, value: bool) -> u16 {
    if value {
        s | 0x2000u16
    } else {
        s & !0x2000u16
    }
}

/// Number of land bytes in a terrain sequence.
pub open spec fn count_land(s: Seq<u8>) -> nat
    decreases s.len(),
{
    if s.len() == 0 {
        0
    } else {
        count_land(s.drop_last()) + if land_bit(s.last()) {
            1nat
        } else {
            0nat
        }
    }
}

/// The mathematical content of a `GameMap`.
pub ghost struct MapModel {
    pub width: nat,
    pub height: nat,
    pub terrain: Seq<u8>,
    pub state: Seq<u16>,
    pub num_land_tiles: nat,
}

impl MapModel {
    /// Number of tiles of the grid.
    pub open spec fn num_tiles(self) -> int {
        (self.width * self.height) as int
    }

    pub open spec fn in_bounds(self, t: int) -> bool {
        0 <= t < self.num_tiles()
    }

    /// Column of a tile.
    pub open spec fn x_of(self, t: int) -> int {
        t % (self.width as int)
    }

    /// Row of a tile.
    pub open spec fn y_of(self, t: int) -> int {
        t / (self.width as int)
    }

    /// Tile at a column and row.
    pub open spec fn ref_of(self, x: int, y: int) -> int {
        y * self.width + x
    }

    pub open spec fn valid_xy(self, x: int, y: int) -> bool {
        0 <= x < self.width && 0 <= y < self.height
    }

    pub open spec fn is_land(self, t: int) -> bool {
        land_bit(self.terrain[t])
    }

    pub open spec fn is_shore(self, t: int) -> bool {
        shore_bit(self.terrain[t])
    }

    pub open spec fn owner(self, t: int) -> Option<u16> {
        owner_of_word(self.state[t])
    }

    pub open spec fn has_fallout(self, t: int) -> bool {
        fallout_bit(self.state[t])
    }

    /// The tile at offset (dx, dy) from `t`, if it lies on the grid.
    pub open spec fn neighbor_at(self, t: int, dx: int, dy: int) -> Seq<int> {
        let nx = self.x_of(t) + dx;
        let ny = self.y_of(t) + dy;
        if self.valid_xy(nx, ny) {
            seq![self.ref_of(nx, ny)]
        } else {
            Seq::empty()
        }
    }

    /// The 4-connected neighbours of `t`, in the order up, down, left, right.
    pub open spec fn neighbors(self, t: int) -> Seq<int> {
        self.neighbor_at(t, 0, -1) + self.neighbor_at(t, 0, 1) + self.neighbor_at(t, -1, 0)
            + self.neighbor_at(t, 1, 0)
    }

    /// An owned land tile with at least one neighbour of another owner.
    pub open spec fn is_border(self, t: int) -> bool {
        &&& self.is_land(t)
        &&& self.owner(t) is Some
        &&& exists|i: int|
            0 <= i < self.neighbors(t).len() && #[trigger] self.owner(self.neighbors(t)[i])
                != self.owner(t)
    }

    /// Manhattan distance between two tiles on the grid.
    pub open spec fn manhattan(self, a: int, b: int) -> int {
        let dx = self.x_of(a) - self.x_of(b);
        let dy = self.y_of(a) - self.y_of(b);
        (if dx < 0 { -dx } else { dx }) + (if dy < 0 { -dy } else { dy })
    }

    /// Coordinates small enough that the signed neighbour arithmetic is exact.
    pub open spec fn fits_i32(self) -> bool {
        self.width <= i32::MAX && self.height <= i32::MAX
    }
}

/// A grid of `width * height` tiles: terrain bytes (read only) and state words.
pub struct GameMap {
    width: usize,
    height: usize,
    terrain: Vec<u8>,
    state: Vec<u16>,
    num_land_tiles: usize,
    ref_to_x: Vec<usize>,
    ref_to_y: Vec<usize>,
    y_to_ref: Vec<TileRef>,
}

impl View for GameMap {
    type V = MapModel;

    closed spec fn view(&self) -> MapModel {
        MapModel {
            width: self.width as nat,
            height: self.height as nat,
            terrain: self.terrain@,
            state: self.state@,
            num_land_tiles: self.num_land_tiles as nat,
        }
    }
}

proof fn lemma_div_mod_row(x: int, y: int, w: int)
    requires
        0 <= x < w,
        0 <= y,
    ensures
        (y * w + x) % w == x,
        (y * w + x) / w == y,
{
    lemma_fundamental_div_mod_converse(y * w + x, w, y, x);
}

proof fn lemma_row_bound(y: int, h: int, w: int)
    requires
        0 <= y < h,
        0 <= w,
    ensures
        y * w + w <= h * w,
{
    assert(y * w + w == (y + 1) * w) by (nonlinear_arith);
    assert((y + 1) * w <= h * w) by (nonlinear_arith)
        requires
            y + 1 <= h,
            0 <= w,
    ;
}

/// A tile in bounds lies at column `t % width` and row `t / width`, and the row is
/// below the height.
proof fn lemma_tile_coords(t: int, w: int, h: int)
    requires
        0 <= t < w * h,
        0 <= h,
        0 <= w,
    ensures
        w > 0,
        0 <= t % w < w,
        0 <= t / w < h,
        (t / w) * w + t % w == t,
{
    if w == 0 {
        assert(w * h == 0) by (nonlinear_arith)
            requires
                w == 0,
        ;
    }
    assert(0 <= t % w < w) by (nonlinear_arith)
        requires
            w > 0,
    ;
    assert((t / w) * w + t % w == t) by (nonlinear_arith)
        requires
            w > 0,
    ;
    assert(0 <= t / w) by (nonlinear_arith)
        requires
            w > 0,
            t >= 0,
    ;
    assert(t / w < h) by (nonlinear_arith)
        requires
            w > 0,
            t >= 0,
            t < w * h,
            (t / w) * w + t % w == t,
            t % w >= 0,
    ;
}

impl GameMap {
    /// The lookup tables agree with the row-major layout.
    pub closed spec fn tables_wf(&self) -> bool {
        let n = self.width * self.height;
        &&& self.ref_to_x@.len() == n
        &&& self.ref_to_y@.len() == n
        &&& self.y_to_ref@.len() == self.height
        &&& forall|t: int| 0 <= t < n ==> #[trigger] self.ref_to_x@[t] == t % (self.width as int)
        &&& forall|t: int| 0 <= t < n ==> #[trigger] self.ref_to_y@[t] == t / (self.width as int)
        &&& forall|y: int| 0 <= y < self.height ==> #[trigger] self.y_to_ref@[y] == y * self.width
    }

    /// Well-formedness: the tables are consistent, the state has one word per
    /// tile, the tile count fits a `usize`, and the land count is exact.
    pub open spec fn wf(&self) -> bool {
        &&& self.tables_wf()
        &&& self@.num_tiles() <= usize::MAX
        &&& self@.state.len() == self@.num_tiles()
        &&& self@.num_land_tiles == count_land(self@.terrain)
    }

    /// Builds a `width` x `height` map over the given terrain bytes, with every
    /// state word zero (no owner, no fallout).
    pub fn new(width: usize, height: usize, terrain_data: Vec<u8>) -> (map: Self)
        requires
            width * height <= usize::MAX,
        ensures
            map.wf(),
            map@.width == width,
            map@.height == height,
            map@.terrain == terrain_data@,
            map@.state == Seq::new((width * height) as nat, |i: int| 0u16),
            map@.num_land_tiles == count_land(terrain_data@),
    {
        let n = width * height;
        let mut ref_to_x: Vec<usize> = Vec::new();
        let mut ref_to_y: Vec<usize> = Vec::new();
        let mut y_to_ref: Vec<TileRef> = Vec::new();
        let mut ref_idx: usize = 0;
        let mut y: usize = 0;
        while y < height
            invariant
                n == width * height,
                width * height <= usize::MAX,
                y <= height,
                ref_idx == y * width,
                ref_to_x@.len() == ref_idx,
                ref_to_y@.len() == ref_idx,
                y_to_ref@.len() == y,
                forall|t: int| 0 <= t < ref_idx ==> #[trigger] ref_to_x@[t] == t % (width as int),
                forall|t: int| 0 <= t < ref_idx ==> #[trigger] ref_to_y@[t] == t / (width as int),
                forall|yy: int| 0 <= yy < y ==> #[trigger] y_to_ref@[yy] == yy * width,
            decreases height - y,
        {
            proof {
                lemma_row_bound(y as int, height as int, width as int);
            }
            y_to_ref.push(ref_idx);
            let mut x: usize = 0;
            while x < width
                invariant
                    n == width * height,
                    width * height <= usize::MAX,
                    y < height,
                    y * width + width <= width * height,
                    x <= width,
                    ref_idx == y * width + x,
                    ref_to_x@.len() == ref_idx,
                    ref_to_y@.len() == ref_idx,
                    forall|t: int|
                        0 <= t < ref_idx ==> #[trigger] ref_to_x@[t] == t % (width as int),
                    forall|t: int|
                        0 <= t < ref_idx ==> #[trigger] ref_to_y@[t] == t / (width as int),
                decreases width - x,
            {
                proof {
                    lemma_div_mod_row(x as int, y as int, width as int);
                }
                ref_to_x.push(x);
                ref_to_y.push(y);
                ref_idx = ref_idx + 1;
                x = x + 1;
            }
            proof {
                assert((y + 1) * width == y * width + width) by (nonlinear_arith);
            }
            y = y + 1;
        }
        proof {
            assert(height * width == width * height) by (nonlinear_arith);
        }
        let mut num_land_tiles: usize = 0;
        let mut i: usize = 0;
        while i < terrain_data.len()
            invariant
                i <= terrain_data@.len(),
                num_land_tiles == count_land(terrain_data@.take(i as int)),
                num_land_tiles <= i,
            decreases terrain_data@.len() - i,
        {
            proof {
                assert(terrain_data@.take(i as int + 1).drop_last() == terrain_data@.take(
                    i as int,
                ));
            }
            if terrain_data[i] & 0x80u8 != 0 {
                num_land_tiles = num_land_tiles + 1;
            }
            i = i + 1;
        }
        proof {
            assert(terrain_data@.take(terrain_data@.len() as int) == terrain_data@);
        }
        let mut state: Vec<u16> = Vec::new();
        let mut k: usize = 0;
        while k < n
            invariant
                k <= n,
                state@ == Seq::new(k as nat, |i: int| 0u16),
            decreases n - k,
        {
            state.push(0u16);
            k = k + 1;
        }
        GameMap {
            width,
            height,
            terrain: terrain_data,
            state,
            num_land_tiles,
            ref_to_x,
            ref_to_y,
            y_to_ref,
        }
    }

    pub fn width(&self) -> (r: usize)
        ensures
            r == self@.width,
    {
        self.width
    }

    pub fn height(&self) -> (r: usize)
        ensures
            r == self@.height,
    {
        self.height
    }

    /// The tile at column `x` of row `y`.
    pub fn ref_from_xy(&self, x: usize, y: usize) -> (r: TileRef)
        requires
            self.wf(),
            y < self@.height,
            y * self@.width + x <= usize::MAX,
        ensures
            r == self@.ref_of(x as int, y as int),
    {
        self.y_to_ref[y] + x
    }

    /// The column of a tile.
    pub fn x(&self, tile_ref: TileRef) -> (r: usize)
        requires
            self.wf(),
            self@.in_bounds(tile_ref as int),
        ensures
            r == self@.x_of(tile_ref as int),
    {
        self.ref_to_x[tile_ref]
    }

    /// The row of a tile.
    pub fn y(&self, tile_ref: TileRef) -> (r: usize)
        requires
            self.wf(),
            self@.in_bounds(tile_ref as int),
        ensures
            r == self@.y_of(tile_ref as int),
    {
        self.ref_to_y[tile_ref]
    }

    /// Whether signed coordinates lie on the grid; the bounds are the width and
    /// height converted to `i32` as the `as` operator does.
    pub fn is_valid_coord(&self, x: i32, y: i32) -> (r: bool)
        ensures
            r == (x >= 0 && x < (self@.width as i32) && y >= 0 && y < (self@.height as i32)),
    {
        x >= 0 && x < self.width as i32 && y >= 0 && y < self.height as i32
    }

    /// How many terrain bytes the map holds.
    pub fn terrain_len(&self) -> (r: usize)
        ensures
            r == self@.terrain.len(),
    {
        self.terrain.len()
    }

    pub fn is_land(&self, tile_ref: TileRef) -> (r: bool)
        requires
            tile_ref < self@.terrain.len(),
        ensures
            r == self@.is_land(tile_ref as int),
    {
        self.terrain[tile_ref] & 0x80u8 != 0
    }

    pub fn is_water(&self, tile_ref: TileRef) -> (r: bool)
        requires
            tile_ref < self@.terrain.len(),
        ensures
            r == !self@.is_land(tile_ref as int),
    {
        !self.is_land(tile_ref)
    }

    pub fn is_shore(&self, tile_ref: TileRef) -> (r: bool)
        requires
            tile_ref < self@.terrain.len(),
        ensures
            r == self@.is_shore(tile_ref as int),
    {
        self.terrain[tile_ref] & 0x40u8 != 0
    }

    /// The player owning a tile, `None` when its owner bits are zero.
    pub fn owner_id(&self, tile_ref: TileRef) -> (r: Option<u16>)
        requires
            tile_ref < self@.state.len(),
        ensures
            r == self@.owner(tile_ref as int),
    {
        let id = self.state[tile_ref] & 0xfffu16;
        if id == 0 {
            None
        } else {
            Some(id)
        }
    }

    /// Clears the owner bits of a tile and ors in `player_id`.
    pub fn set_owner_id(&mut self, tile_ref: TileRef, player_id: u16)
        requires
            tile_ref < old(self)@.state.len(),
        ensures
            final(self)@ == (MapModel {
                state: old(self)@.state.update(
                    tile_ref as int,
                    word_with_owner(old(self)@.state[tile_ref as int], player_id),
                ),
                ..old(self)@
            }),
            old(self).tables_wf() ==> final(self).tables_wf(),
    {
        let v = (self.state[tile_ref] & !0xfffu16) | player_id;
        self.state[tile_ref] = v;
    }

    pub fn has_fallout(&self, tile_ref: TileRef) -> (r: bool)
        requires
            tile_ref < self@.state.len(),
        ensures
            r == self@.has_fallout(tile_ref as int),
    {
        self.state[tile_ref] & 0x2000u16 != 0
    }

    /// Sets or clears the fallout bit of a tile.
    pub fn set_fallout(&mut self, tile_ref: TileRef, value: bool)
        requires
            tile_ref < old(self)@.state.len(),
        ensures
            final(self)@ == (MapModel {
                state: old(self)@.state.update(
                    tile_ref as int,
                    word_with_fallout(old(self)@.state[tile_ref as int], value),
                ),
                ..old(self)@
            }),
            old(self).tables_wf() ==> final(self).tables_wf(),
    {
        if value {
            let v = self.state[tile_ref] | 0x2000u16;
            self.state[tile_ref] = v;
        } else {
            let v = self.state[tile_ref] & !0x2000u16;
            self.state[tile_ref] = v;
        }
    }

    /// Appends the tile at `(nx, ny)` when those coordinates lie on the grid.
    fn push_if_valid(&self, result: &mut Vec<TileRef>, nx: i32, ny: i32)
        requires
            self.wf(),
            self@.fits_i32(),
        ensures
            final(result)@.map_values(|v: usize| v as int) == old(result)@.map_values(
                |v: usize| v as int,
            ) + (if self@.valid_xy(nx as int, ny as int) {
                seq![self@.ref_of(nx as int, ny as int)]
            } else {
                Seq::<int>::empty()
            }),
    {
        if self.is_valid_coord(nx, ny) {
            proof {
                lemma_row_bound(ny as int, self@.height as int, self@.width as int);
                assert(self@.height * self@.width == self@.width * self@.height) by (nonlinear_arith);
            }
            let t = self.ref_from_xy(nx as usize, ny as usize);
            result.push(t);
            assert(result@.map_values(|v: usize| v as int) =~= old(result)@.map_values(
                |v: usize| v as int,
            ) + seq![self@.ref_of(nx as int, ny as int)]);
        } else {
            assert(result@.map_values(|v: usize| v as int) =~= old(result)@.map_values(
                |v: usize| v as int,
            ) + Seq::<int>::empty());
        }
    }

    /// The 4-connected neighbours of a tile that lie on the grid, in the order
    /// up, down, left, right.
    pub fn neighbors(&self, tile_ref: TileRef) -> (r: Vec<TileRef>)
        requires
            self.wf(),
            self@.in_bounds(tile_ref as int),
            self@.fits_i32(),
        ensures
            r@.map_values(|v: usize| v as int) == self@.neighbors(tile_ref as int),
    {
        proof {
            lemma_tile_coords(tile_ref as int, self@.width as int, self@.height as int);
        }
        let mut result: Vec<TileRef> = Vec::with_capacity(4);
        let x = self.x(tile_ref) as i32;
        let y = self.y(tile_ref) as i32;
        assert(result@.map_values(|v: usize| v as int) =~= Seq::<int>::empty());
        self.push_if_valid(&mut result, x + 0, y - 1);
        self.push_if_valid(&mut result, x + 0, y + 1);
        self.push_if_valid(&mut result, x - 1, y + 0);
        self.push_if_valid(&mut result, x + 1, y + 0);
        assert(result@.map_values(|v: usize| v as int) =~= self@.neighbors(tile_ref as int));
        result
    }

    /// An owned land tile is a border tile when some neighbour has a different
    /// owner (or none).
    pub fn is_border(&self, tile_ref: TileRef) -> (r: bool)
        requires
            self.wf(),
            self@.in_bounds(tile_ref as int),
            tile_ref < self@.terrain.len(),
            self@.fits_i32(),
        ensures
            r == self@.is_border(tile_ref as int),
    {
        if !self.is_land(tile_ref) {
            return false;
        }
        let owner = self.owner_id(tile_ref);
        if owner.is_none() {
            return false;
        }
        let neighbors = self.neighbors(tile_ref);
        let ghost ns = self@.neighbors(tile_ref as int);
        proof {
            lemma_neighbors_in_bounds(self@, tile_ref as int);
            assert(ns.len() == neighbors@.len());
        }
        let mut i: usize = 0;
        while i < neighbors.len()
            invariant
                self.wf(),
                i <= neighbors@.len(),
                ns == self@.neighbors(tile_ref as int),
                neighbors@.map_values(|v: usize| v as int) == ns,
                owner == self@.owner(tile_ref as int),
                owner is Some,
                self@.is_land(tile_ref as int),
                forall|k: int| 0 <= k < ns.len() ==> self@.in_bounds(#[trigger] ns[k]),
                forall|j: int| 0 <= j < i ==> #[trigger] self@.owner(ns[j]) == owner,
            decreases neighbors@.len() - i,
        {
            let neighbor = neighbors[i];
            assert(ns[i as int] == neighbor as int);
            let neighbor_owner = self.owner_id(neighbor);
            if neighbor_owner != owner {
                assert(self@.owner(ns[i as int]) != self@.owner(tile_ref as int));
                return true;
            }
            i = i + 1;
        }
        false
    }

    /// Calls `f` once for every tile, in increasing order.
    pub fn for_each_tile<F>(&self, f: F) where F: Fn(TileRef)
        requires
            self.wf(),
            forall|t: TileRef| #[trigger] call_requires(f, (t,)),
        ensures
            forall|t: TileRef| (t as int) < self@.num_tiles() ==> #[trigger] call_ensures(f, (t,), ()),
    {
        let n = self.width * self.height;
        let mut tile_ref: usize = 0;
        while tile_ref < n
            invariant
                tile_ref <= n,
                n == self@.num_tiles(),
                forall|t: TileRef| #[trigger] call_requires(f, (t,)),
                forall|t: TileRef| t < tile_ref ==> #[trigger] call_ensures(f, (t,), ()),
            decreases n - tile_ref,
        {
            f(tile_ref);
            tile_ref = tile_ref + 1;
        }
    }
}

/// Every neighbour of an in-bounds tile is itself in bounds.
pub proof fn lemma_neighbors_in_bounds(m: MapModel, t: int)
    requires
        m.in_bounds(t),
    ensures
        forall|k: int| 0 <= k < m.neighbors(t).len() ==> m.in_bounds(#[trigger] m.neighbors(t)[k]),
{
    assert forall|x: int, y: int| m.valid_xy(x, y) implies m.in_bounds(m.ref_of(x, y)) by {
        lemma_row_bound(y, m.height as int, m.width as int);
        assert(m.height * m.width == m.width * m.height) by (nonlinear_arith);
    }
}

/// Converting a tile to coordinates and back gives the same tile, and the
/// coordinates lie on the grid.
pub proof fn lemma_tile_coords_roundtrip(m: MapModel, t: int)
    requires
        m.in_bounds(t),
    ensures
        m.valid_xy(m.x_of(t), m.y_of(t)),
        m.ref_of(m.x_of(t), m.y_of(t)) == t,
{
    lemma_tile_coords(t, m.width as int, m.height as int);
}

/// Converting coordinates on the grid to a tile and back gives the same
/// coordinates, and the tile is in bounds.
pub proof fn lemma_coords_tile_roundtrip(m: MapModel, x: int, y: int)
    requires
        m.valid_xy(x, y),
    ensures
        m.in_bounds(m.ref_of(x, y)),
        m.x_of(m.ref_of(x, y)) == x,
        m.y_of(m.ref_of(x, y)) == y,
{
    lemma_div_mod_row(x, y, m.width as int);
    lemma_row_bound(y, m.height as int, m.width as int);
    assert(m.height * m.width == m.width * m.height) by (nonlinear_arith);
}

/// The neighbours of a tile are exactly the tiles at Manhattan distance one
/// from it on the grid.
pub proof fn lemma_neighbors_at_distance_one(m: MapModel, a: int, b: int)
    requires
        m.in_bounds(a),
        m.in_bounds(b),
    ensures
        m.neighbors(a).contains(b) <==> m.manhattan(a, b) == 1,
{
    lemma_tile_coords_roundtrip(m, a);
    lemma_tile_coords_roundtrip(m, b);
    let (ax, ay) = (m.x_of(a), m.y_of(a));
    let (bx, by) = (m.x_of(b), m.y_of(b));
    assert forall|x: int, y: int| m.valid_xy(x, y) implies m.x_of(m.ref_of(x, y)) == x && m.y_of(
        m.ref_of(x, y),
    ) == y by {
        lemma_coords_tile_roundtrip(m, x, y);
    }
    if m.neighbors(a).contains(b) {
        let k = choose|k: int| 0 <= k < m.neighbors(a).len() && m.neighbors(a)[k] == b;
        assert(m.neighbors(a)[k] == b);
    }
    if m.manhattan(a, b) == 1 {
        if ax == bx && by + 1 == ay {
            assert(m.neighbors(a)[0] == b);
        } else if ax == bx && ay + 1 == by {
            assert(m.neighbor_at(a, 0, 1) == seq![b]);
            assert(m.neighbors(a)[m.neighbor_at(a, 0, -1).len() as int] == b);
        } else if ay == by && bx + 1 == ax {
            assert(m.neighbor_at(a, -1, 0) == seq![b]);
            assert(m.neighbors(a)[(m.neighbor_at(a, 0, -1).len() + m.neighbor_at(a, 0, 1).len()) as int]
                == b);
        } else {
            assert(m.neighbor_at(a, 1, 0) == seq![b]);
            assert(m.neighbors(a)[m.neighbors(a).len() - 1] == b);
        }
    }
}

/// Neighbourhood is symmetric: `b` is a neighbour of `a` exactly when `a` is a
/// neighbour of `b`.
pub proof fn lemma_neighbors_symmetric(m: MapModel, a: int, b: int)
    requires
        m.in_bounds(a),
        m.in_bounds(b),
    ensures
        m.neighbors(a).contains(b) <==> m.neighbors(b).contains(a),
{
    lemma_neighbors_at_distance_one(m, a, b);
    lemma_neighbors_at_distance_one(m, b, a);
}

/// A tile is never its own neighbour, and it has at most four neighbours.
pub proof fn lemma_neighbors_exclude_self(m: MapModel, t: int)
    requires
        m.in_bounds(t),
    ensures
        !m.neighbors(t).contains(t),
        m.neighbors(t).len() <= 4,
{
    lemma_tile_coords_roundtrip(m, t);
    assert forall|x: int, y: int| m.valid_xy(x, y) implies m.x_of(m.ref_of(x, y)) == x && m.y_of(
        m.ref_of(x, y),
    ) == y by {
        lemma_coords_tile_roundtrip(m, x, y);
    }
    if m.neighbors(t).contains(t) {
        let k = choose|k: int| 0 <= k < m.neighbors(t).len() && m.neighbors(t)[k] == t;
        assert(m.neighbors(t)[k] == t);
    }
}

/// Writing an owner id of twelve bits or fewer: the tile then reports exactly that
/// owner (none for 0), keeps its fallout bit, and no other tile changes.
pub proof fn lemma_owner_after_set(m: MapModel, t: int, player_id: u16)
    requires
        0 <= t < m.state.len(),
        player_id <= 0xfff,
    ensures
        ({
            let m2 = MapModel {
                state: m.state.update(t, word_with_owner(m.state[t], player_id)),
                ..m
            };
            &&& m2.owner(t) == (if player_id == 0 {
                None
            } else {
                Some(player_id)
            })
            &&& m2.has_fallout(t) == m.has_fallout(t)
            &&& forall|u: int| 0 <= u < m.state.len() && u != t ==> m2.state[u] == m.state[u]
        }),
{
    let s = m.state[t];
    assert((s & !0xfffu16 | player_id) & 0xfffu16 == player_id) by (bit_vector)
        requires
            player_id <= 0xfff,
    ;
    assert(((s & !0xfffu16 | player_id) & 0x2000u16 != 0) == (s & 0x2000u16 != 0)) by (bit_vector)
        requires
            player_id <= 0xfff,
    ;
}

/// Setting or clearing the fallout bit: the tile then reports that value, keeps
/// its owner, and no other tile changes.
pub proof fn lemma_fallout_after_set(m: MapModel, t: int, value: bool)
    requires
        0 <= t < m.state.len(),
    ensures
        ({
            let m2 = MapModel {
                state: m.state.update(t, word_with_fallout(m.state[t], value)),
                ..m
            };
            &&& m2.has_fallout(t) == value
            &&& m2.owner(t) == m.owner(t)
            &&& forall|u: int| 0 <= u < m.state.len() && u != t ==> m2.state[u] == m.state[u]
        }),
{
    let s = m.state[t];
    assert((s | 0x2000u16) & 0x2000u16 != 0) by (bit_vector);
    assert((s & !0x2000u16) & 0x2000u16 == 0) by (bit_vector);
    assert((s | 0x2000u16) & 0xfffu16 == s & 0xfffu16) by (bit_vector);
    assert((s & !0x2000u16) & 0xfffu16 == s & 0xfffu16) by (bit_vector);
}

/// A tile whose state word is zero has no owner and no fallout; in particular
/// every tile of a freshly built map.
pub proof fn lemma_zero_word_is_empty()
    ensures
        owner_of_word(0u16) is None,
        !fallout_bit(0u16),
{
    assert(0u16 & 0xfffu16 == 0) by (bit_vector);
    assert(0u16 & 0x2000u16 == 0) by (bit_vector);
}

/// A border tile is an owned land tile.
pub proof fn lemma_border_is_owned_land(m: MapModel, t: int)
    requires
        m.is_border(t),
    ensures
        m.is_land(t),
        m.owner(t) is Some,
{
}

/// A tile is a border tile exactly when it is owned land and some tile at
/// Manhattan distance one from it on the grid (above, below, left or right)
/// has another owner, or none.
pub proof fn lemma_border_by_distance(m: MapModel, t: int)
    requires
        m.in_bounds(t),
    ensures
        m.is_border(t) <==> (m.is_land(t) && m.owner(t) is Some && exists|b: int|
            m.in_bounds(b) && m.manhattan(t, b) == 1 && #[trigger] m.owner(b) != m.owner(t)),
{
    lemma_neighbors_in_bounds(m, t);
    let ns = m.neighbors(t);
    if m.is_border(t) {
        let i = choose|i: int| 0 <= i < ns.len() && #[trigger] m.owner(ns[i]) != m.owner(t);
        let b = ns[i];
        assert(ns.contains(b));
        lemma_neighbors_at_distance_one(m, t, b);
        assert(m.in_bounds(b) && m.manhattan(t, b) == 1 && m.owner(b) != m.owner(t));
    }
    if m.is_land(t) && m.owner(t) is Some && exists|b: int|
        m.in_bounds(b) && m.manhattan(t, b) == 1 && #[trigger] m.owner(b) != m.owner(t) {
        let b = choose|b: int|
            m.in_bounds(b) && m.manhattan(t, b) == 1 && #[trigger] m.owner(b) != m.owner(t);
        lemma_neighbors_at_distance_one(m, t, b);
        let i = choose|i: int| 0 <= i < ns.len() && ns[i] == b;
        assert(m.owner(ns[i]) != m.owner(t));
    }
}

/// Above, below, left and right: the tile one row up (same column) is at
/// distance one, and so is the tile one column to the left (same row); a tile
/// is not at distance one from itself.
pub proof fn lemma_distance_one_examples(m: MapModel, x: int, y: int)
    requires
        m.valid_xy(x, y),
        m.valid_xy(x, y + 1),
        m.valid_xy(x + 1, y),
    ensures
        m.manhattan(m.ref_of(x, y), m.ref_of(x, y + 1)) == 1,
        m.manhattan(m.ref_of(x, y), m.ref_of(x + 1, y)) == 1,
        m.manhattan(m.ref_of(x, y), m.ref_of(x, y)) == 0,
{
    lemma_coords_tile_roundtrip(m, x, y);
    lemma_coords_tile_roundtrip(m, x, y + 1);
    lemma_coords_tile_roundtrip(m, x + 1, y);
}

} // verus!
