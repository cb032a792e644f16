use vstd::prelude::*;

use vstd::arithmetic::power2::pow2;

use crate::coord::{GeoCoord, TileCoord, LAT_LIMIT, LON_LIMIT};
use crate::rect::{Edge, GeoRect, EDGE_BOTTOM, EDGE_LEFT, EDGE_RIGHT, EDGE_TOP};

verus! {

/// The number of tiles along each axis at zoom `z`.
pub open spec fn tile_count(z: int) -> int {
    pow2(z as nat) as int
}

/// A tile address in the XYZ scheme: `y` counts down from the top.
#[derive(Copy, Clone, Debug, PartialEq, Eq, Structural)]
pub struct TileId {
    x: u32,
    y: u32,
    z: u32,
}

impl TileId {
    #[verifier::type_invariant]
    spec fn inv(self) -> bool {
        self.z < 32 && self.x < tile_count(self.z as int) && self.y < tile_count(self.z as int)
    }

    pub closed spec fn x_value(self) -> int {
        self.x as int
    }

    pub closed spec fn y_value(self) -> int {
        self.y as int
    }

    pub closed spec fn z_value(self) -> int {
        self.z as int
    }

    /// The zoom fits a `u32` grid and both indices lie on it.
    pub open spec fn wf(self) -> bool {
        self.z_value() < 32 && 0 <= self.x_value() < tile_count(self.z_value()) && 0
            <= self.y_value() < tile_count(self.z_value())
    }

    /// Builds the tile address; refused unless both indices are below `2^z`.
    pub fn new(x: u32, y: u32, z: u32) -> (r: Result<TileId, InvalidTileId>)
        requires
            z < 32,
        ensures
            r is Ok <==> (x < tile_count(z as int) && y < tile_count(z as int)),
            r is Ok ==> r->Ok_0.x_value() == x && r->Ok_0.y_value() == y && r->Ok_0.z_value()
                == z,
    {
        let max = count_at(z);
        if x < max && y < max {
            Ok(TileId { x, y, z })
        } else {
            Err(InvalidTileId)
        }
    }

    pub fn x(&self) -> (r: u32)
        ensures
            r == self.x_value(),
    {
        self.x
    }

    pub fn y(&self) -> (r: u32)
        ensures
            r == self.y_value(),
    {
        self.y
    }

    pub fn z(&self) -> (r: u32)
        ensures
            r == self.z_value(),
            self.wf(),
    {
        proof {
            use_type_invariant(self);
        }
        self.z
    }

    /// Mirrors the row: `y` becomes `2^z - 1 - y`.
    fn flip_y(&mut self)
        ensures
            final(self).x == old(self).x,
            final(self).z == old(self).z,
            final(self).y == tile_count(old(self).z as int) - 1 - old(self).y,
    {
        proof {
            use_type_invariant(&*self);
        }
        let max = count_at(self.z);
        self.y = max - 1 - self.y;
    }
}

/// A grid of zoom below 32 has at most 2^31 tiles a side.
pub proof fn lemma_count_bound(z: int)
    requires
        0 <= z < 32,
    ensures
        0 < tile_count(z) <= 0x8000_0000,
{
    vstd::arithmetic::power2::lemma_pow2_pos(z as nat);
    vstd::arithmetic::power2::lemma2_to64();
    if z < 31 {
        vstd::arithmetic::power2::lemma_pow2_strictly_increases(z as nat, 31);
    }
}

/// `2^z`.
fn count_at(z: u32) -> (r: u32)
    requires
        z < 32,
    ensures
        r == tile_count(z as int),
        0 < r <= 0x8000_0000,
{
    proof {
        lemma_count_bound(z as int);
        vstd::bits::lemma_u32_shl_is_mul(1, z);
    }
    1u32 << z
}

/// A tile address in the TMS scheme: `y` counts up from the bottom.
#[derive(Copy, Clone, Debug, PartialEq, Eq, Structural)]
pub struct TmsTileId(TileId);

impl TmsTileId {
    pub closed spec fn x_value(self) -> int {
        self.0.x_value()
    }

    pub closed spec fn y_value(self) -> int {
        self.0.y_value()
    }

    pub closed spec fn z_value(self) -> int {
        self.0.z_value()
    }

    pub open spec fn wf(self) -> bool {
        self.z_value() < 32 && 0 <= self.x_value() < tile_count(self.z_value()) && 0
            <= self.y_value() < tile_count(self.z_value())
    }

    /// Builds the tile address; refused unless both indices are below `2^z`.
    pub fn new(x: u32, y: u32, z: u32) -> (r: Result<TmsTileId, InvalidTileId>)
        requires
            z < 32,
        ensures
            r is Ok <==> (x < tile_count(z as int) && y < tile_count(z as int)),
            r is Ok ==> r->Ok_0.x_value() == x && r->Ok_0.y_value() == y && r->Ok_0.z_value()
                == z,
    {
        match TileId::new(x, y, z) {
            Ok(tile_id) => Ok(TmsTileId(tile_id)),
            Err(e) => Err(e),
        }
    }

    pub fn x(&self) -> (r: u32)
        ensures
            r == self.x_value(),
    {
        self.0.x
    }

    pub fn y(&self) -> (r: u32)
        ensures
            r == self.y_value(),
    {
        self.0.y
    }

    pub fn z(&self) -> (r: u32)
        ensures
            r == self.z_value(),
            self.wf(),
    {
        self.0.z()
    }
}

/// The XYZ address of a TMS tile.
pub closed spec fn xyz_of(t: TmsTileId) -> TileId {
    TileId { x: t.0.x, y: (tile_count(t.0.z as int) - 1 - t.0.y) as u32, z: t.0.z }
}

/// The TMS address of an XYZ tile.
pub closed spec fn tms_of(t: TileId) -> TmsTileId {
    TmsTileId(TileId { x: t.x, y: (tile_count(t.z as int) - 1 - t.y) as u32, z: t.z })
}

/// Converting between the schemes keeps `x` and `z` and mirrors `y`.
pub proof fn lemma_flip(a: TileId, b: TmsTileId)
    requires
        a.wf(),
        b.wf(),
    ensures
        tms_of(a).x_value() == a.x_value() && tms_of(a).z_value() == a.z_value(),
        tms_of(a).y_value() == tile_count(a.z_value()) - 1 - a.y_value(),
        xyz_of(b).x_value() == b.x_value() && xyz_of(b).z_value() == b.z_value(),
        xyz_of(b).y_value() == tile_count(b.z_value()) - 1 - b.y_value(),
{
    vstd::bits::lemma_u32_pow2_no_overflow(a.z_value() as nat);
    vstd::bits::lemma_u32_pow2_no_overflow(b.z_value() as nat);
}

/// Converting a tile to the other scheme and back gives the tile again, both ways.
pub proof fn lemma_round_trip(a: TileId, b: TmsTileId)
    requires
        a.wf(),
        b.wf(),
    ensures
        xyz_of(tms_of(a)) == a,
        tms_of(xyz_of(b)) == b,
{
    lemma_flip(a, b);
    lemma_flip(xyz_of(b), tms_of(a));
    assert(xyz_of(tms_of(a)).y == a.y);
    assert(tms_of(xyz_of(b)).0.y == b.0.y);
}

impl From<TmsTileId> for TileId {
    fn from(tms_tile_id: TmsTileId) -> (r: TileId) {
        let mut t = tms_tile_id.0;
        t.flip_y();
        t
    }
}

impl vstd::std_specs::convert::FromSpecImpl<TmsTileId> for TileId {
    open spec fn obeys_from_spec() -> bool {
        true
    }

    open spec fn from_spec(v: TmsTileId) -> TileId {
        xyz_of(v)
    }
}

impl From<TileId> for TmsTileId {
    fn from(tile_id: TileId) -> (r: TmsTileId) {
        let mut t = tile_id;
        t.flip_y();
        TmsTileId(t)
    }
}

impl vstd::std_specs::convert::FromSpecImpl<TileId> for TmsTileId {
    open spec fn obeys_from_spec() -> bool {
        true
    }

    open spec fn from_spec(v: TileId) -> TmsTileId {
        tms_of(v)
    }
}

/// The reason a tile address was refused: an index not below `2^z`.
#[derive(Debug, Clone, Copy, PartialEq, Eq, Structural)]
pub struct InvalidTileId;

impl InvalidTileId {
    /// The error's message.
    pub fn message(&self) -> (r: String)
        ensures
            r@ == "invalid tile ID given"@,
    {
        "invalid tile ID given".to_owned()
    }
}


/// Steps of the Mercator ordinate across the whole grid: an ordinate of 0 is the
/// grid's top edge (about 85.0511 degrees north), one of `MERCATOR_SPAN` its bottom
/// edge (as far south).
pub const MERCATOR_SPAN: i64 = 4503599627370496;

/// An ordinate held within the grid, from its top edge to just above its bottom edge.
pub open spec fn clamp_ordinate(y: int) -> int {
    if y < 0 {
        0
    } else if y >= MERCATOR_SPAN {
        MERCATOR_SPAN - 1
    } else {
        y
    }
}

/// The column of tiles that a longitude falls in; 180 degrees gives `count`, the
/// column past the last one.
pub open spec fn column_of(lon: int, count: int) -> int {
    (lon + LON_LIMIT) * count / (2 * LON_LIMIT)
}

/// The column of pixels, across the whole grid, that a longitude falls in.
pub open spec fn pixel_column_of(lon: int, count: int, extent: int) -> int {
    (lon + LON_LIMIT) * (count * extent) / (2 * LON_LIMIT)
}

/// The row of tiles that a Mercator ordinate falls in.
pub open spec fn row_of(y: int, count: int) -> int {
    clamp_ordinate(y) * count / (MERCATOR_SPAN as int)
}

/// The row of pixels, across the whole grid, that a Mercator ordinate falls in.
pub open spec fn pixel_row_of(y: int, count: int, extent: int) -> int {
    clamp_ordinate(y) * (count * extent) / (MERCATOR_SPAN as int)
}

/// The column past the last one is the first: the grid wraps around in longitude.
pub open spec fn wrap_column(c: int, count: int) -> int {
    if c == count {
        0
    } else {
        c
    }
}

pub open spec fn left_of(x: int, count: int) -> int {
    if x > 0 {
        x - 1
    } else {
        count - 1
    }
}

pub open spec fn right_of(x: int, count: int) -> int {
    if x < count - 1 {
        x + 1
    } else {
        0
    }
}

/// The neighbours of tile `(x, y)` as (edge, x, y): left and right, then the three
/// above unless `y` is the top row, then the three below unless it is the bottom row.
pub open spec fn neighbour_cells(x: int, y: int, count: int) -> Seq<(u32, int, int)> {
    let l = left_of(x, count);
    let r = right_of(x, count);
    let sides = seq![(EDGE_LEFT, l, y), (EDGE_RIGHT, r, y)];
    let above = if y > 0 {
        seq![(EDGE_TOP, x, y - 1), (EDGE_TOP | EDGE_LEFT, l, y - 1), (EDGE_TOP | EDGE_RIGHT, r, y - 1)]
    } else {
        Seq::empty()
    };
    let below = if y < count - 1 {
        seq![
            (EDGE_BOTTOM, x, y + 1),
            (EDGE_BOTTOM | EDGE_LEFT, l, y + 1),
            (EDGE_BOTTOM | EDGE_RIGHT, r, y + 1),
        ]
    } else {
        Seq::empty()
    };
    sides + above + below
}

/// The edge bits and the indices of each neighbour.
pub open spec fn cells_of(v: Seq<(Edge, TileId)>) -> Seq<(u32, int, int)> {
    v.map_values(|e: (Edge, TileId)| (e.0.bits_spec(), e.1.x_value(), e.1.y_value()))
}

/// Splitting `a / d` of the way across `count` tiles of `extent` pixels: the tile
/// index lies within `[0, count]`, and the pixel offset within the tile in
/// `[0, extent)`.
proof fn lemma_locate(a: int, d: int, count: int, extent: int)
    requires
        0 <= a <= d,
        0 < d,
        0 < count,
        0 <= extent,
    ensures
        0 <= a * count / d <= count,
        a < d ==> a * count / d < count,
        0 <= a * (count * extent) / d - (a * count / d) * extent,
        extent > 0 ==> a * (count * extent) / d - (a * count / d) * extent < extent,
        extent == 0 ==> a * (count * extent) / d - (a * count / d) * extent == 0,
{
    let big = a * count;
    let t = big / d;
    let r = big % d;
    vstd::arithmetic::div_mod::lemma_fundamental_div_mod(big, d);
    assert(0 <= big <= d * count) by (nonlinear_arith)
        requires
            0 <= a <= d,
            0 <= count,
            big == a * count,
    ;
    vstd::arithmetic::div_mod::lemma_div_is_ordered(big, d * count, d);
    vstd::arithmetic::div_mod::lemma_div_is_ordered(0, big, d);
    vstd::arithmetic::div_mod::lemma_div_by_multiple(count, d);
    assert(d * count == count * d) by (nonlinear_arith);
    if a < d && count > 0 {
        assert(big < d * count) by (nonlinear_arith)
            requires
                0 <= a < d,
                0 < count,
                big == a * count,
        ;
        assert(t < count) by (nonlinear_arith)
            requires
                big == d * t + r,
                0 <= r,
                big < d * count,
                0 < d,
        ;
    }
    let q = (r * extent) / d;
    let s = (r * extent) % d;
    vstd::arithmetic::div_mod::lemma_fundamental_div_mod(r * extent, d);
    assert(0 <= r * extent) by (nonlinear_arith)
        requires
            0 <= r,
            0 <= extent,
    ;
    vstd::arithmetic::div_mod::lemma_div_is_ordered(0, r * extent, d);
    assert(a * (count * extent) == d * (t * extent + q) + s) by (nonlinear_arith)
        requires
            big == a * count,
            big == d * t + r,
            r * extent == d * q + s,
    ;
    vstd::arithmetic::div_mod::lemma_div_multiples_vanish_fancy(t * extent + q, s, d);
    if extent > 0 {
        assert(q < extent) by (nonlinear_arith)
            requires
                r * extent == d * q + s,
                0 <= s,
                r < d,
                0 < extent,
                0 < d,
        ;
    } else {
        assert(r * extent == 0) by (nonlinear_arith)
            requires
                extent == 0,
        ;
    }
}

/// The tile index and the pixel offset within it of a point `a / d` of the way
/// across `count` tiles of `extent` pixels.
fn locate(a: u64, d: u64, count: u64, extent: u64) -> (r: (u64, u64))
    requires
        a <= d,
        0 < d < 0x1000_0000_0000_0000,
        0 < count <= 0x8000_0000,
        extent <= 0x8000_0000,
    ensures
        r.0 == a * count / (d as int),
        r.1 == a * (count * extent) / (d as int) - (a * count / (d as int)) * extent,
{
    proof {
        lemma_locate(a as int, d as int, count as int, extent as int);
        assert(a * count <= 0x1000_0000_0000_0000 * 0x8000_0000) by (nonlinear_arith)
            requires
                a < 0x1000_0000_0000_0000,
                count <= 0x8000_0000,
        ;
        assert(a * (count * extent) <= 0x1000_0000_0000_0000 * (0x8000_0000 * 0x8000_0000))
            by (nonlinear_arith)
            requires
                a < 0x1000_0000_0000_0000,
                count <= 0x8000_0000,
                extent <= 0x8000_0000,
        ;
    }
    assert(count * extent <= 0x8000_0000u64 * 0x8000_0000u64) by (nonlinear_arith)
        requires
            count <= 0x8000_0000,
            extent <= 0x8000_0000,
    ;
    let tile = (a as u128 * count as u128) / d as u128;
    let pixel = (a as u128 * (count as u128 * extent as u128)) / d as u128;
    let offset = pixel - tile * extent as u128;
    (tile as u64, offset as u64)
}

/// The pixel, across the whole grid, of a point `a / d` of the way across.
fn pixel_at(a: u64, d: u64, count: u64, extent: u64) -> (r: u64)
    requires
        a <= d,
        0 < d < 0x1000_0000_0000_0000,
        0 < count <= 0x8000_0000,
        extent <= 0x8000_0000,
    ensures
        r == a * (count * extent) / (d as int),
        r <= count * extent,
{
    proof {
        assert(a * (count * extent) <= d * (count * extent)) by (nonlinear_arith)
            requires
                a <= d,
                count * extent >= 0,
        ;
        vstd::arithmetic::div_mod::lemma_div_is_ordered(
            a * (count * extent),
            d * (count * extent),
            d as int,
        );
        vstd::arithmetic::div_mod::lemma_div_by_multiple(count * extent, d as int);
        assert(d * (count * extent) == (count * extent) * d) by (nonlinear_arith);
        assert(a * (count * extent) <= 0x1000_0000_0000_0000 * (0x8000_0000 * 0x8000_0000))
            by (nonlinear_arith)
            requires
                a < 0x1000_0000_0000_0000,
                count <= 0x8000_0000,
                extent <= 0x8000_0000,
        ;
    }
    assert(count * extent <= 0x8000_0000u64 * 0x8000_0000u64) by (nonlinear_arith)
        requires
            count <= 0x8000_0000,
            extent <= 0x8000_0000,
    ;
    ((a as u128 * (count as u128 * extent as u128)) / d as u128) as u64
}

/// The Mercator grid at one zoom, with tiles of `tile_extent` pixels a side.
#[derive(Debug, Clone, Copy)]
pub struct TileGrid {
    z: u32,
    tile_extent: u32,
}

impl TileGrid {
    #[verifier::type_invariant]
    spec fn inv(self) -> bool {
        self.z < 32 && self.tile_extent <= 0x8000_0000
    }

    pub closed spec fn z_value(self) -> int {
        self.z as int
    }

    pub closed spec fn extent_value(self) -> int {
        self.tile_extent as int
    }

    pub open spec fn count(self) -> int {
        tile_count(self.z_value())
    }

    /// The grid at zoom `z`; its pixel offsets are `i32`, so a tile is at most 2^31
    /// pixels a side.
    pub fn new(z: u32, tile_extent: u32) -> (r: TileGrid)
        requires
            z < 32,
            tile_extent <= 0x8000_0000,
        ensures
            r.z_value() == z,
            r.extent_value() == tile_extent,
    {
        TileGrid { z, tile_extent }
    }

    pub fn z(&self) -> (r: u32)
        ensures
            r == self.z_value(),
            r < 32,
    {
        proof {
            use_type_invariant(self);
        }
        self.z
    }

    pub fn tile_extent(&self) -> (r: u32)
        ensures
            r == self.extent_value(),
            r <= 0x8000_0000,
    {
        proof {
            use_type_invariant(self);
        }
        self.tile_extent
    }

    /// The tile that holds `coord` and the pixel offset within it, where `merc_y` is
    /// the Mercator ordinate of `coord`'s latitude. Ordinates beyond the grid's top
    /// and bottom edges are taken at those edges.
    pub fn tile_id(&self, coord: &GeoCoord, merc_y: i64) -> (r: (TileId, TileCoord))
        ensures
            r.0.x_value() == wrap_column(column_of(coord.lon_value(), self.count()), self.count()),
            r.0.y_value() == row_of(merc_y as int, self.count()),
            r.0.z_value() == self.z_value(),
            r.1.x == pixel_column_of(coord.lon_value(), self.count(), self.extent_value())
                - column_of(coord.lon_value(), self.count()) * self.extent_value(),
            r.1.y == pixel_row_of(merc_y as int, self.count(), self.extent_value()) - row_of(
                merc_y as int,
                self.count(),
            ) * self.extent_value(),
    {
        proof {
            use_type_invariant(self);
        }
        let count = count_at(self.z) as u64;
        let extent = self.tile_extent as u64;
        let lon = coord.lon_steps();
        let (column, x_offset) = locate(
            (lon + LON_LIMIT) as u64,
            2 * LON_LIMIT as u64,
            count,
            extent,
        );
        let y = clamp(merc_y);
        let (row, y_offset) = locate(y as u64, MERCATOR_SPAN as u64, count, extent);
        proof {
            lemma_locate((lon + LON_LIMIT) as int, 2 * LON_LIMIT, count as int, extent as int);
            lemma_locate(y as int, MERCATOR_SPAN as int, count as int, extent as int);
        }
        let x = if column == count {
            0
        } else {
            column as u32
        };
        let tile_id = TileId { x, y: row as u32, z: self.z };
        (tile_id, TileCoord { x: x_offset as i32, y: y_offset as i32 })
    }

    /// The pixel offset of `coord` from the top-left corner of `tile_id`, where
    /// `merc_y` is the Mercator ordinate of `coord`'s latitude; wrapped into `i32`.
    pub fn tile_coord(&self, coord: &GeoCoord, merc_y: i64, tile_id: TileId) -> (r: TileCoord)
        ensures
            r.x == (pixel_column_of(coord.lon_value(), self.count(), self.extent_value())
                - tile_id.x_value() * self.extent_value()) as i32,
            r.y == (pixel_row_of(merc_y as int, self.count(), self.extent_value())
                - tile_id.y_value() * self.extent_value()) as i32,
    {
        proof {
            use_type_invariant(self);
        }
        let count = count_at(self.z) as u64;
        let extent = self.tile_extent as u64;
        let lon = coord.lon_steps();
        let abs_x = pixel_at((lon + LON_LIMIT) as u64, 2 * LON_LIMIT as u64, count, extent);
        let y = clamp(merc_y);
        let abs_y = pixel_at(y as u64, MERCATOR_SPAN as u64, count, extent);
        let tx = tile_id.x() as u64;
        let ty = tile_id.y() as u64;
        let tz = tile_id.z();
        proof {
            lemma_count_bound(tz as int);
            assert(tx * extent <= 0x8000_0000u64 * 0x8000_0000u64) by (nonlinear_arith)
                requires
                    tx <= 0x8000_0000,
                    extent <= 0x8000_0000,
            ;
            assert(ty * extent <= 0x8000_0000u64 * 0x8000_0000u64) by (nonlinear_arith)
                requires
                    ty <= 0x8000_0000,
                    extent <= 0x8000_0000,
            ;
            assert(count * extent <= 0x8000_0000u64 * 0x8000_0000u64) by (nonlinear_arith)
                requires
                    count <= 0x8000_0000,
                    extent <= 0x8000_0000,
            ;
        }
        let dx = abs_x as i64 - (tx * extent) as i64;
        let dy = abs_y as i64 - (ty * extent) as i64;
        TileCoord {
            x: #[verifier::truncate]
            (dx as i32),
            y: #[verifier::truncate]
            (dy as i32),
        }
    }
}

impl TileGrid {
    /// The neighbours of `tile_id`: the grid wraps around in longitude and stops at
    /// its top and bottom rows.
    pub fn neighbours(&self, tile_id: TileId) -> (r: Vec<(Edge, TileId)>)
        requires
            tile_id.z_value() == self.z_value(),
        ensures
            cells_of(r@) == neighbour_cells(tile_id.x_value(), tile_id.y_value(), self.count()),
            forall|i: int| 0 <= i < r@.len() ==> (#[trigger] r@[i]).1.z_value() == self.z_value(),
    {
        proof {
            use_type_invariant(&tile_id);
        }
        let count = count_at(self.z);
        let x = tile_id.x;
        let y = tile_id.y;
        let z = tile_id.z;
        let mut result: Vec<(Edge, TileId)> = Vec::with_capacity(8);
        let left_x = if x > 0 {
            x - 1
        } else {
            count - 1
        };
        result.push((Edge::left(), TileId { x: left_x, y, z }));
        let right_x = if x < count - 1 {
            x + 1
        } else {
            0
        };
        result.push((Edge::right(), TileId { x: right_x, y, z }));
        let ghost sides = result@;
        if y > 0 {
            let top_y = y - 1;
            result.push((Edge::top(), TileId { x, y: top_y, z }));
            result.push((Edge::top().union(Edge::left()), TileId { x: left_x, y: top_y, z }));
            result.push((Edge::top().union(Edge::right()), TileId { x: right_x, y: top_y, z }));
        }
        let ghost upper = result@;
        if y < count - 1 {
            let bottom_y = y + 1;
            result.push((Edge::bottom(), TileId { x, y: bottom_y, z }));
            result.push(
                (Edge::bottom().union(Edge::left()), TileId { x: left_x, y: bottom_y, z }),
            );
            result.push(
                (Edge::bottom().union(Edge::right()), TileId { x: right_x, y: bottom_y, z }),
            );
        }
        proof {
            let cells = neighbour_cells(x as int, y as int, count as int);
            assert(cells_of(result@) =~= cells);
        }
        result
    }

    /// The rectangle that `tile_id` covers, where `north` and `south` are the
    /// latitudes of its top and bottom edges.
    pub fn tile_bbox(&self, tile_id: TileId, north: i64, south: i64) -> (r: GeoRect)
        requires
            tile_id.x_value() < self.count(),
            -LAT_LIMIT <= south <= north <= LAT_LIMIT,
        ensures
            r.west() == tile_id.x_value() * (2 * LON_LIMIT / self.count()) - LON_LIMIT,
            r.east() == (tile_id.x_value() + 1) * (2 * LON_LIMIT / self.count()) - LON_LIMIT,
            r.north() == north,
            r.south() == south,
    {
        proof {
            use_type_invariant(self);
        }
        let count = count_at(self.z) as i64;
        let width = 2 * LON_LIMIT / count;
        let x = tile_id.x() as i64;
        proof {
            vstd::arithmetic::div_mod::lemma_div_pos_is_pos(2 * LON_LIMIT, count as int);
            vstd::arithmetic::div_mod::lemma_fundamental_div_mod(2 * LON_LIMIT, count as int);
            vstd::arithmetic::div_mod::lemma_mod_bound(2 * LON_LIMIT, count as int);
            assert(0 <= x * width && x * width + width <= count * width && (x + 1) * width == x
                * width + width) by (nonlinear_arith)
                requires
                    0 <= x < count,
                    0 <= width,
            ;
        }
        let west = x * width - LON_LIMIT;
        let east = (x + 1) * width - LON_LIMIT;
        rect_from(west, north, east, south)
    }

    /// As `tile_bbox`, with the tile's window grown by `buf` pixels on each side;
    /// `north` and `south` are the latitudes of the grown window's top and bottom.
    /// The window must stay within the grid's longitudes.
    pub fn tile_bbox_with_buf(&self, tile_id: TileId, buf: u32, north: i64, south: i64) -> (r:
        GeoRect)
        requires
            self.extent_value() > 0,
            buf <= tile_id.x_value() * self.extent_value(),
            (tile_id.x_value() + 1) * self.extent_value() + buf <= self.count()
                * self.extent_value(),
            -LAT_LIMIT <= south <= north <= LAT_LIMIT,
        ensures
            r.west() == (tile_id.x_value() * self.extent_value() - buf) * (2 * LON_LIMIT) / (
            self.count() * self.extent_value()) - LON_LIMIT,
            r.east() == ((tile_id.x_value() + 1) * self.extent_value() + buf) * (2 * LON_LIMIT) / (
            self.count() * self.extent_value()) - LON_LIMIT,
            r.north() == north,
            r.south() == south,
    {
        proof {
            use_type_invariant(self);
        }
        let count = count_at(self.z) as u64;
        let extent = self.tile_extent as u64;
        let x = tile_id.x() as u64;
        let tz = tile_id.z();
        proof {
            lemma_count_bound(tz as int);
            assert(count * extent <= 0x8000_0000u64 * 0x8000_0000u64) by (nonlinear_arith)
                requires
                    count <= 0x8000_0000,
                    extent <= 0x8000_0000,
            ;
            assert(0 < count * extent) by (nonlinear_arith)
                requires
                    0 < count,
                    0 < extent,
            ;
            assert((x + 1) * extent <= 0x8000_0000u64 * 0x8000_0000u64) by (nonlinear_arith)
                requires
                    x < 0x8000_0000,
                    extent <= 0x8000_0000,
            ;
            assert(x * extent <= (x + 1) * extent) by (nonlinear_arith);
        }
        let world = count * extent;
        let left = x * extent - buf as u64;
        let right = (x + 1) * extent + buf as u64;
        let span = 2 * LON_LIMIT as u64;
        let west_offset = scale(left, world, span);
        let east_offset = scale(right, world, span);
        rect_from(west_offset as i64 - LON_LIMIT, north, east_offset as i64 - LON_LIMIT, south)
    }

    /// The tiles at the corners of `bbox`: its top-left corner, whose latitude has
    /// Mercator ordinate `north_y`, and its bottom-right corner, whose latitude has
    /// ordinate `south_y`. The tiles between them, both included, cover `bbox`
    /// unless it crosses the antimeridian.
    pub fn region(&self, bbox: &GeoRect, north_y: i64, south_y: i64) -> (r: (TileId, TileId))
        ensures
            r.0.x_value() == wrap_column(column_of(bbox.west(), self.count()), self.count()),
            r.0.y_value() == row_of(north_y as int, self.count()),
            r.1.x_value() == wrap_column(column_of(bbox.east(), self.count()), self.count()),
            r.1.y_value() == row_of(south_y as int, self.count()),
            r.0.z_value() == self.z_value() && r.1.z_value() == self.z_value(),
    {
        let tl = self.tile_id(&bbox.top_left(), north_y);
        let br = self.tile_id(&bbox.bottom_right(), south_y);
        (tl.0, br.0)
    }
}

/// `a * s / d`, rounded down.
fn scale(a: u64, d: u64, s: u64) -> (r: u64)
    requires
        a <= d,
        0 < d < 0x8000_0000_0000_0000,
        s < 0x1000_0000_0000_0000,
    ensures
        r == a * s / (d as int),
        r <= s,
{
    proof {
        assert(a * s <= d * s) by (nonlinear_arith)
            requires
                a <= d,
        ;
        vstd::arithmetic::div_mod::lemma_div_is_ordered(a * s, d * s, d as int);
        vstd::arithmetic::div_mod::lemma_div_by_multiple(s as int, d as int);
        assert(d * s == s * d) by (nonlinear_arith);
        assert(a * s <= 0x8000_0000_0000_0000 * 0x1000_0000_0000_0000) by (nonlinear_arith)
            requires
                a < 0x8000_0000_0000_0000,
                s < 0x1000_0000_0000_0000,
        ;
    }
    ((a as u128 * s as u128) / d as u128) as u64
}

/// The rectangle with the given edges.
fn rect_from(west: i64, north: i64, east: i64, south: i64) -> (r: GeoRect)
    requires
        -LON_LIMIT <= west <= LON_LIMIT,
        -LON_LIMIT <= east <= LON_LIMIT,
        -LAT_LIMIT <= south <= north <= LAT_LIMIT,
    ensures
        r.west() == west && r.north() == north && r.east() == east && r.south() == south,
{
    let tl = GeoCoord::from_steps_in_range(west, north);
    let br = GeoCoord::from_steps_in_range(east, south);
    GeoRect::from_ordered(tl, br)
}

/// The ordinate held within the grid.
fn clamp(y: i64) -> (r: i64)
    ensures
        r == clamp_ordinate(y as int),
{
    if y < 0 {
        0
    } else if y >= MERCATOR_SPAN {
        MERCATOR_SPAN - 1
    } else {
        y
    }
}

} // verus!
