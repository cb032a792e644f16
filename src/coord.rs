use vstd::prelude::*;
use vstd::std_specs::cmp::PartialEqSpec;

verus! {

/// Fixed-point steps in one nanodegree. A coordinate is held as a whole number of
/// steps, which is fine enough to hold every nanodegree and every compact
/// encoding exactly.
pub const STEPS_PER_NANODEGREE: i64 = 1048576;

/// Nanodegrees in 180 degrees.
pub const NANO_LON_LIMIT: i64 = 180000000000;

/// Nanodegrees in 90 degrees.
pub const NANO_LAT_LIMIT: i64 = 90000000000;

/// Steps in 180 degrees.
pub const LON_LIMIT: i64 = 188743680000000000;

/// Steps in 90 degrees.
pub const LAT_LIMIT: i64 = 94371840000000000;

/// Steps in one unit of the compact encoding: 180 degrees / 2^31, which is also
/// 90 degrees / 2^30.
pub const COMPACT_STEP: i64 = 87890625;

pub open spec fn abs(v: int) -> int {
    if v < 0 {
        -v
    } else {
        v
    }
}

/// A longitude in [-180, 180] and a latitude in [-90, 90], in steps.
pub open spec fn in_range(lon: int, lat: int) -> bool {
    -LON_LIMIT <= lon <= LON_LIMIT && -LAT_LIMIT <= lat <= LAT_LIMIT
}

/// Two positions name the same point: both lie on the antimeridian, or both lie on
/// the same pole, or their longitudes and latitudes are equal.
pub open spec fn same_point(a_lon: int, a_lat: int, b_lon: int, b_lat: int) -> bool {
    (abs(a_lon) == LON_LIMIT && abs(b_lon) == LON_LIMIT) || (a_lat == b_lat && abs(a_lat)
        == LAT_LIMIT) || (a_lon == b_lon && a_lat == b_lat)
}

/// WGS 84 longitude/latitude pair, in fixed-point steps.
#[derive(Clone, Copy, Debug)]
pub struct GeoCoord {
    lon: i64,
    lat: i64,
}

impl GeoCoord {
    #[verifier::type_invariant]
    spec fn inv(self) -> bool {
        in_range(self.lon as int, self.lat as int)
    }

    /// The longitude, in steps.
    pub closed spec fn lon_value(self) -> int {
        self.lon as int
    }

    /// The latitude, in steps.
    pub closed spec fn lat_value(self) -> int {
        self.lat as int
    }

    /// Builds a coordinate from a longitude and a latitude given in steps.
    pub fn from_steps(lon: i64, lat: i64) -> (r: Result<GeoCoord, InvalidGeoCoord>)
        ensures
            r is Ok <==> in_range(lon as int, lat as int),
            r is Ok ==> r->Ok_0.lon_value() == lon && r->Ok_0.lat_value() == lat,
    {
        if -LON_LIMIT <= lon && lon <= LON_LIMIT && -LAT_LIMIT <= lat && lat <= LAT_LIMIT {
            Ok(GeoCoord { lon, lat })
        } else {
            Err(InvalidGeoCoord)
        }
    }

    /// Builds a coordinate from a longitude and a latitude in range, given in steps.
    pub(crate) fn from_steps_in_range(lon: i64, lat: i64) -> (r: GeoCoord)
        requires
            in_range(lon as int, lat as int),
        ensures
            r.lon_value() == lon && r.lat_value() == lat,
    {
        GeoCoord { lon, lat }
    }

    /// Builds a coordinate from a longitude and a latitude given in nanodegrees.
    pub fn from_nanodegrees(lon: i64, lat: i64) -> (r: Result<GeoCoord, InvalidGeoCoord>)
        ensures
            r is Ok <==> (-NANO_LON_LIMIT <= lon <= NANO_LON_LIMIT && -NANO_LAT_LIMIT <= lat
                <= NANO_LAT_LIMIT),
            r is Ok ==> r->Ok_0.lon_value() == lon * STEPS_PER_NANODEGREE && r->Ok_0.lat_value()
                == lat * STEPS_PER_NANODEGREE,
    {
        if -NANO_LON_LIMIT <= lon && lon <= NANO_LON_LIMIT && -NANO_LAT_LIMIT <= lat && lat
            <= NANO_LAT_LIMIT {
            assert(-LON_LIMIT <= lon * STEPS_PER_NANODEGREE <= LON_LIMIT) by (nonlinear_arith)
                requires
                    -NANO_LON_LIMIT <= lon <= NANO_LON_LIMIT,
            ;
            assert(-LAT_LIMIT <= lat * STEPS_PER_NANODEGREE <= LAT_LIMIT) by (nonlinear_arith)
                requires
                    -NANO_LAT_LIMIT <= lat <= NANO_LAT_LIMIT,
            ;
            Ok(GeoCoord { lon: lon * STEPS_PER_NANODEGREE, lat: lat * STEPS_PER_NANODEGREE })
        } else {
            Err(InvalidGeoCoord)
        }
    }

    /// The longitude and the latitude in nanodegrees, rounded down.
    pub fn to_nanodegrees(&self) -> (r: (i64, i64))
        ensures
            r.0 == self.lon_value() / (STEPS_PER_NANODEGREE as int),
            r.1 == self.lat_value() / (STEPS_PER_NANODEGREE as int),
    {
        proof {
            use_type_invariant(self);
        }
        let lon_shifted = (self.lon + LON_LIMIT) as u64;
        let lat_shifted = (self.lat + LAT_LIMIT) as u64;
        let lon = (lon_shifted / (STEPS_PER_NANODEGREE as u64)) as i64 - NANO_LON_LIMIT;
        let lat = (lat_shifted / (STEPS_PER_NANODEGREE as u64)) as i64 - NANO_LAT_LIMIT;
        proof {
            lemma_floor_shift(self.lon as int, NANO_LON_LIMIT as int, STEPS_PER_NANODEGREE as int);
            lemma_floor_shift(self.lat as int, NANO_LAT_LIMIT as int, STEPS_PER_NANODEGREE as int);
        }
        (lon, lat)
    }

    /// The longitude, in steps.
    pub fn lon_steps(&self) -> (r: i64)
        ensures
            r == self.lon_value(),
            -LON_LIMIT <= r <= LON_LIMIT,
    {
        proof {
            use_type_invariant(self);
        }
        self.lon
    }

    /// The latitude, in steps.
    pub fn lat_steps(&self) -> (r: i64)
        ensures
            r == self.lat_value(),
            -LAT_LIMIT <= r <= LAT_LIMIT,
    {
        proof {
            use_type_invariant(self);
        }
        self.lat
    }
}

/// Shifting a value by a whole number of divisors shifts its quotient by as many.
pub proof fn lemma_floor_shift(v: int, k: int, d: int)
    requires
        d > 0,
    ensures
        (v + k * d) / d - k == v / d,
{
    let q = v / d;
    let r = v % d;
    vstd::arithmetic::div_mod::lemma_fundamental_div_mod(v, d);
    assert(v + k * d == d * (q + k) + r) by (nonlinear_arith)
        requires
            v == d * q + r,
    ;
    vstd::arithmetic::div_mod::lemma_div_multiples_vanish_fancy(q + k, r, d);
}

impl PartialEq for GeoCoord {
    fn eq(&self, other: &GeoCoord) -> (r: bool) {
        proof {
            use_type_invariant(self);
            use_type_invariant(other);
        }
        let a = if self.lon < 0 {
            -self.lon
        } else {
            self.lon
        };
        let b = if other.lon < 0 {
            -other.lon
        } else {
            other.lon
        };
        let c = if self.lat < 0 {
            -self.lat
        } else {
            self.lat
        };
        if a == LON_LIMIT && b == LON_LIMIT {
            true
        } else if self.lat == other.lat && c == LAT_LIMIT {
            true
        } else {
            self.lon == other.lon && self.lat == other.lat
        }
    }
}

impl vstd::std_specs::cmp::PartialEqSpecImpl for GeoCoord {
    open spec fn obeys_eq_spec() -> bool {
        true
    }

    open spec fn eq_spec(&self, other: &GeoCoord) -> bool {
        same_point(self.lon_value(), self.lat_value(), other.lon_value(), other.lat_value())
    }
}

/// The two ends of the antimeridian at one latitude are the same point.
pub proof fn lemma_antimeridian_identity(a: GeoCoord, b: GeoCoord)
    requires
        a.lon_value() == -LON_LIMIT,
        b.lon_value() == LON_LIMIT,
        a.lat_value() == b.lat_value(),
    ensures
        a.eq_spec(&b),
        b.eq_spec(&a),
{
}

/// All longitudes at one pole name the same point.
pub proof fn lemma_pole_identity(a: GeoCoord, b: GeoCoord)
    requires
        a.lat_value() == b.lat_value(),
        a.lat_value() == LAT_LIMIT || a.lat_value() == -LAT_LIMIT,
    ensures
        a.eq_spec(&b),
{
}

/// The two poles are different points, unless both coordinates lie on the
/// antimeridian, which makes any two coordinates equal.
pub proof fn lemma_poles_differ(a: GeoCoord, b: GeoCoord)
    requires
        a.lat_value() == LAT_LIMIT,
        b.lat_value() == -LAT_LIMIT,
        !(abs(a.lon_value()) == LON_LIMIT && abs(b.lon_value()) == LON_LIMIT),
    ensures
        !a.eq_spec(&b),
        !b.eq_spec(&a),
{
}

/// The reason a coordinate was refused: a longitude or a latitude out of range.
#[derive(Debug, Clone, Copy, PartialEq, Eq, Structural)]
pub struct InvalidGeoCoord;

impl InvalidGeoCoord {
    /// The error's message.
    pub fn message(&self) -> (r: String)
        ensures
            r@ == "invalid coordinate given"@,
    {
        "invalid coordinate given".to_owned()
    }
}


/// Bit `i` of `v`.
pub open spec fn bit(v: u64, i: u64) -> u64 {
    (v >> i) & 1
}

/// The compact longitude of a longitude in steps: rounded down, and held at the
/// largest `i32` where it would pass it (at exactly 180 degrees).
pub open spec fn encode_lon(lon: int) -> int {
    if lon / (COMPACT_STEP as int) > i32::MAX {
        i32::MAX as int
    } else {
        lon / (COMPACT_STEP as int)
    }
}

/// The compact latitude of a latitude in steps, rounded down.
pub open spec fn encode_lat(lat: int) -> int {
    lat / (COMPACT_STEP as int)
}

/// A WGS84 coordinate encoded into two 32-bit integers, in units of 180 / 2^31
/// degrees.
#[derive(Copy, Clone, Debug, PartialEq, Eq)]
pub struct CompactGeoCoord {
    lon: i32,
    lat: i32,
}

impl CompactGeoCoord {
    #[verifier::type_invariant]
    spec fn inv(self) -> bool {
        -0x4000_0000 <= self.lat <= 0x4000_0000
    }

    /// The encoded longitude.
    pub closed spec fn lon_value(self) -> int {
        self.lon as int
    }

    /// The encoded latitude.
    pub closed spec fn lat_value(self) -> int {
        self.lat as int
    }

    /// The encoded longitude.
    pub fn lon(&self) -> (r: i32)
        ensures
            r == self.lon_value(),
    {
        self.lon
    }

    /// The encoded latitude.
    pub fn lat(&self) -> (r: i32)
        ensures
            r == self.lat_value(),
    {
        self.lat
    }

    /// The Morton code: bit `2i` is bit `i` of the longitude, bit `2i + 1` is bit `i`
    /// of the latitude.
    pub fn morton_code(&self) -> (r: i64)
        ensures
            forall|i: u64|
                i < 32 ==> #[trigger] bit(r as u64, (2 * i) as u64) == bit(
                    self.lon_value() as u32 as u64,
                    i,
                ) && bit(r as u64, (2 * i + 1) as u64) == bit(self.lat_value() as u32 as u64, i),
    {
        let m = interleave(
            #[verifier::truncate]
            (self.lon as u32) as u64,
            #[verifier::truncate]
            (self.lat as u32) as u64,
        );
        let r = #[verifier::truncate]
        (m as i64);
        assert(r as u64 == m) by (bit_vector)
            requires
                r == m as i64,
        ;
        r
    }
}

/// What `From` gives for a coordinate.
pub closed spec fn encoded(c: GeoCoord) -> CompactGeoCoord {
    CompactGeoCoord {
        lon: encode_lon(c.lon_value()) as i32,
        lat: encode_lat(c.lat_value()) as i32,
    }
}

/// What `From` gives for a compact coordinate.
pub closed spec fn decoded(c: CompactGeoCoord) -> GeoCoord {
    GeoCoord { lon: (c.lon * COMPACT_STEP) as i64, lat: (c.lat * COMPACT_STEP) as i64 }
}

/// Encoding rounds each value down to whole compact units.
pub proof fn lemma_encoded(c: GeoCoord)
    requires
        in_range(c.lon_value(), c.lat_value()),
    ensures
        encoded(c).lon_value() == encode_lon(c.lon_value()),
        encoded(c).lat_value() == encode_lat(c.lat_value()),
{
    lemma_floor_shift(c.lon_value(), 0x8000_0000, COMPACT_STEP as int);
    lemma_floor_shift(c.lat_value(), 0x4000_0000, COMPACT_STEP as int);
    vstd::arithmetic::div_mod::lemma_div_is_ordered(0, c.lon_value() + LON_LIMIT, COMPACT_STEP as int);
    vstd::arithmetic::div_mod::lemma_div_is_ordered(0, c.lat_value() + LAT_LIMIT, COMPACT_STEP as int);
    vstd::arithmetic::div_mod::lemma_div_is_ordered(c.lat_value() + LAT_LIMIT, 2 * LAT_LIMIT, COMPACT_STEP as int);
}

/// Decoding is exact: each compact unit is `COMPACT_STEP` steps.
pub proof fn lemma_decoded(c: CompactGeoCoord)
    requires
        -0x4000_0000 <= c.lat_value() <= 0x4000_0000,
    ensures
        decoded(c).lon_value() == c.lon_value() * COMPACT_STEP,
        decoded(c).lat_value() == c.lat_value() * COMPACT_STEP,
{
    assert(-LON_LIMIT <= c.lon_value() * COMPACT_STEP <= LON_LIMIT) by (nonlinear_arith)
        requires
            -0x8000_0000 <= c.lon_value() < 0x8000_0000,
    ;
    assert(-LAT_LIMIT <= c.lat_value() * COMPACT_STEP <= LAT_LIMIT) by (nonlinear_arith)
        requires
            -0x4000_0000 <= c.lat_value() <= 0x4000_0000,
    ;
}

impl From<GeoCoord> for CompactGeoCoord {
    fn from(coord: GeoCoord) -> (r: CompactGeoCoord) {
        proof {
            use_type_invariant(&coord);
        }
        let lon_units = ((coord.lon + LON_LIMIT) as u64 / COMPACT_STEP as u64) as i64 - 0x8000_0000;
        let lat_units = ((coord.lat + LAT_LIMIT) as u64 / COMPACT_STEP as u64) as i64 - 0x4000_0000;
        proof {
            lemma_floor_shift(coord.lon as int, 0x8000_0000, COMPACT_STEP as int);
            lemma_floor_shift(coord.lat as int, 0x4000_0000, COMPACT_STEP as int);
        }
        let lon = if lon_units > 0x7fff_ffff {
            0x7fff_ffff
        } else {
            lon_units as i32
        };
        CompactGeoCoord { lon, lat: lat_units as i32 }
    }
}

impl vstd::std_specs::convert::FromSpecImpl<GeoCoord> for CompactGeoCoord {
    open spec fn obeys_from_spec() -> bool {
        true
    }

    open spec fn from_spec(v: GeoCoord) -> CompactGeoCoord {
        encoded(v)
    }
}

impl From<CompactGeoCoord> for GeoCoord {
    fn from(coord: CompactGeoCoord) -> (r: GeoCoord) {
        proof {
            use_type_invariant(&coord);
        }
        assert(-LON_LIMIT <= coord.lon * COMPACT_STEP <= LON_LIMIT) by (nonlinear_arith)
            requires
                -0x8000_0000 <= coord.lon < 0x8000_0000,
        ;
        assert(-LAT_LIMIT <= coord.lat * COMPACT_STEP <= LAT_LIMIT) by (nonlinear_arith)
            requires
                -0x4000_0000 <= coord.lat <= 0x4000_0000,
        ;
        GeoCoord { lon: coord.lon as i64 * COMPACT_STEP, lat: coord.lat as i64 * COMPACT_STEP }
    }
}

impl vstd::std_specs::convert::FromSpecImpl<CompactGeoCoord> for GeoCoord {
    open spec fn obeys_from_spec() -> bool {
        true
    }

    open spec fn from_spec(v: CompactGeoCoord) -> GeoCoord {
        decoded(v)
    }
}

/// One step of the interleave: bits below `2i` stay, bits `2i` and `2i + 1` take
/// bit `i` of `x` and of `y`, and the bits above stay clear.
proof fn lemma_interleave_step(m: u64, x: u64, y: u64, i: u64, n: u64, j: u64)
    by (bit_vector)
    requires
        i < 32,
        j < 64,
        m >> (2 * i) == 0,
        n == m | (((x >> i) & 1) << (2 * i)) | (((y >> i) & 1) << (2 * i + 1)),
    ensures
        j < 2 * i ==> (n >> j) & 1 == (m >> j) & 1,
        j == 2 * i ==> (n >> j) & 1 == (x >> i) & 1,
        j == 2 * i + 1 ==> (n >> j) & 1 == (y >> i) & 1,
        i < 31 ==> n >> (2 * i + 2) == 0,
{
}

/// Interleaves the low 32 bits of `x` and `y`: `x` on the even bits, `y` on the odd.
fn interleave(x: u64, y: u64) -> (r: u64)
    ensures
        forall|i: u64|
            i < 32 ==> #[trigger] bit(r, (2 * i) as u64) == bit(x, i) && bit(r, (2 * i + 1) as u64)
                == bit(y, i),
{
    let mut morton: u64 = 0;
    let mut i: u64 = 0;
    assert(0u64 >> 0u64 == 0u64) by (bit_vector);
    while i < 32
        invariant
            i <= 32,
            forall|j: u64|
                j < i ==> #[trigger] bit(morton, (2 * j) as u64) == bit(x, j) && bit(
                    morton,
                    (2 * j + 1) as u64,
                ) == bit(y, j),
            i < 32 ==> morton >> (2 * i) == 0,
        decreases 32 - i,
    {
        let next = morton | (((x >> i) & 1) << (2 * i)) | (((y >> i) & 1) << (2 * i + 1));
        proof {
            assert forall|j: u64| j < i + 1 implies #[trigger] bit(next, (2 * j) as u64) == bit(x, j)
                && bit(next, (2 * j + 1) as u64) == bit(y, j) by {
                lemma_interleave_step(morton, x, y, i, next, (2 * j) as u64);
                lemma_interleave_step(morton, x, y, i, next, (2 * j + 1) as u64);
                if j < i {
                    assert(bit(morton, (2 * j) as u64) == bit(x, j));
                }
            }
            lemma_interleave_step(morton, x, y, i, next, 0);
        }
        morton = next;
        i = i + 1;
    }
    morton
}

/// Tile relative "pixel" coordinate.
#[derive(Copy, Clone, Debug, PartialEq, Eq, Structural)]
pub struct TileCoord {
    pub x: i32,
    pub y: i32,
}

impl TileCoord {
    pub fn new(x: i32, y: i32) -> (r: TileCoord)
        ensures
            r.x == x && r.y == y,
    {
        TileCoord { x, y }
    }

    /// The offset from `self` to `to`.
    pub fn diff_to(&self, to: &TileCoord) -> (r: TileCoord)
        requires
            i32::MIN <= to.x - self.x <= i32::MAX,
            i32::MIN <= to.y - self.y <= i32::MAX,
        ensures
            r.x == to.x - self.x && r.y == to.y - self.y,
    {
        TileCoord { x: to.x - self.x, y: to.y - self.y }
    }
}

impl From<(i32, i32)> for TileCoord {
    fn from(pair: (i32, i32)) -> (r: TileCoord) {
        TileCoord { x: pair.0, y: pair.1 }
    }
}

impl vstd::std_specs::convert::FromSpecImpl<(i32, i32)> for TileCoord {
    open spec fn obeys_from_spec() -> bool {
        true
    }

    open spec fn from_spec(v: (i32, i32)) -> TileCoord {
        TileCoord { x: v.0, y: v.1 }
    }
}

impl From<TileCoord> for (i32, i32) {
    fn from(c: TileCoord) -> (r: (i32, i32)) {
        (c.x, c.y)
    }
}

impl vstd::std_specs::convert::FromSpecImpl<TileCoord> for (i32, i32) {
    open spec fn obeys_from_spec() -> bool {
        true
    }

    open spec fn from_spec(v: TileCoord) -> (i32, i32) {
        (v.x, v.y)
    }
}

} // verus!
