use vstd::prelude::*;

use crate::coord::{abs, GeoCoord, LAT_LIMIT, LON_LIMIT};

verus! {

/// A longitude lies in the span from `west` to `east`; where `west` is east of
/// `east`, the span wraps through the antimeridian.
pub open spec fn lon_within(west: int, east: int, lon: int) -> bool {
    if west > east {
        lon >= west || lon <= east
    } else {
        west <= lon && lon <= east
    }
}

/// The midpoint of the latitudes, rounded down.
pub open spec fn center_lat(north: int, south: int) -> int {
    (north + south) / 2
}

/// The midpoint of the longitude span, rounded down; for a span that crosses the
/// antimeridian it is taken along the wrapped span, and brought back into range.
pub open spec fn center_lon(west: int, east: int) -> int {
    if west > east {
        let m = ((LON_LIMIT - west) + (east + LON_LIMIT)) / 2 + west;
        if m > LON_LIMIT {
            m - 2 * LON_LIMIT
        } else {
            m
        }
    } else {
        (west + east) / 2
    }
}

/// An axis-aligned longitude/latitude rectangle. Where the top-left longitude is
/// east of the bottom-right one, the rectangle crosses the antimeridian.
#[derive(Debug, Clone, Copy)]
pub struct GeoRect {
    top_left: GeoCoord,
    bottom_right: GeoCoord,
}

impl GeoRect {
    #[verifier::type_invariant]
    spec fn inv(self) -> bool {
        self.top_left.lat_value() >= self.bottom_right.lat_value()
    }

    pub closed spec fn tl(self) -> GeoCoord {
        self.top_left
    }

    pub closed spec fn br(self) -> GeoCoord {
        self.bottom_right
    }

    pub open spec fn west(self) -> int {
        self.tl().lon_value()
    }

    pub open spec fn east(self) -> int {
        self.br().lon_value()
    }

    pub open spec fn north(self) -> int {
        self.tl().lat_value()
    }

    pub open spec fn south(self) -> int {
        self.br().lat_value()
    }

    /// The corners lie in range and the top is not below the bottom, as for every
    /// rectangle that `new` builds.
    pub open spec fn wf(self) -> bool {
        &&& crate::coord::in_range(self.west(), self.north())
        &&& crate::coord::in_range(self.east(), self.south())
        &&& self.north() >= self.south()
    }

    pub open spec fn crosses_dateline_spec(self) -> bool {
        self.west() > self.east()
    }

    pub open spec fn contains_spec(self, lon: int, lat: int) -> bool {
        self.south() <= lat <= self.north() && lon_within(self.west(), self.east(), lon)
    }

    pub open spec fn contains_rect_spec(self, other: GeoRect) -> bool {
        if !self.crosses_dateline_spec() && other.crosses_dateline_spec() && (self.west()
            > -LON_LIMIT || self.east() < LON_LIMIT) {
            false
        } else {
            self.contains_spec(other.west(), other.north()) && self.contains_spec(
                other.east(),
                other.south(),
            )
        }
    }

    pub open spec fn intersects_spec(self, other: GeoRect) -> bool {
        if other.north() < self.south() || other.south() > self.north() {
            false
        } else if (abs(self.north()) == LAT_LIMIT && self.north() == other.north()) || (abs(
            self.south(),
        ) == LAT_LIMIT && self.south() == other.south()) {
            true
        } else {
            lon_within(self.west(), self.east(), other.west()) || lon_within(
                self.west(),
                self.east(),
                other.east(),
            )
        }
    }

    /// Builds the rectangle; refused where the top-left corner lies below the
    /// bottom-right one.
    pub fn new(top_left: GeoCoord, bottom_right: GeoCoord) -> (r: Result<GeoRect, InvalidGeoRect>)
        ensures
            r is Err <==> top_left.lat_value() < bottom_right.lat_value(),
            r is Ok ==> r->Ok_0.tl() == top_left && r->Ok_0.br() == bottom_right,
    {
        if top_left.lat_steps() < bottom_right.lat_steps() {
            Err(InvalidGeoRect)
        } else {
            Ok(GeoRect { top_left, bottom_right })
        }
    }

    /// Builds the rectangle from corners already in order.
    pub(crate) fn from_ordered(top_left: GeoCoord, bottom_right: GeoCoord) -> (r: GeoRect)
        requires
            top_left.lat_value() >= bottom_right.lat_value(),
        ensures
            r.tl() == top_left && r.br() == bottom_right,
    {
        GeoRect { top_left, bottom_right }
    }

    pub fn top_left(&self) -> (r: GeoCoord)
        ensures
            r == self.tl(),
    {
        self.top_left
    }

    pub fn bottom_right(&self) -> (r: GeoCoord)
        ensures
            r == self.br(),
    {
        self.bottom_right
    }

    /// The center of the rectangle, along the wrapped span where it crosses the
    /// antimeridian.
    pub fn center(&self) -> (r: GeoCoord)
        ensures
            r.lon_value() == center_lon(self.west(), self.east()),
            r.lat_value() == center_lat(self.north(), self.south()),
    {
        let west = self.top_left.lon_steps();
        let east = self.bottom_right.lon_steps();
        let north = self.top_left.lat_steps();
        let south = self.bottom_right.lat_steps();
        let lat = ((north + south + 2 * LAT_LIMIT) / 2) - LAT_LIMIT;
        proof {
            crate::coord::lemma_floor_shift(north + south, LAT_LIMIT as int, 2);
        }
        let lon = if west > east {
            let a = LON_LIMIT - west;
            let b = east + LON_LIMIT;
            let m = (a + b) / 2 + west;
            if m > LON_LIMIT {
                m - 2 * LON_LIMIT
            } else {
                m
            }
        } else {
            proof {
                crate::coord::lemma_floor_shift(west + east, LON_LIMIT as int, 2);
            }
            ((west + east + 2 * LON_LIMIT) / 2) - LON_LIMIT
        };
        GeoCoord::from_steps_in_range(lon, lat)
    }

    pub fn crosses_dateline(&self) -> (r: bool)
        ensures
            r == self.crosses_dateline_spec(),
    {
        self.top_left.lon_steps() > self.bottom_right.lon_steps()
    }

    fn contains_lon(&self, lon: i64) -> (r: bool)
        ensures
            r == lon_within(self.west(), self.east(), lon as int),
    {
        let west = self.top_left.lon_steps();
        let east = self.bottom_right.lon_steps();
        if !(west > east) {
            lon >= west && lon <= east
        } else {
            lon >= west || lon <= east
        }
    }

    pub fn contains_coord(&self, coord: &GeoCoord) -> (r: bool)
        ensures
            r == self.contains_spec(coord.lon_value(), coord.lat_value()),
    {
        let lat = coord.lat_steps();
        if lat <= self.top_left.lat_steps() && lat >= self.bottom_right.lat_steps() {
            self.contains_lon(coord.lon_steps())
        } else {
            false
        }
    }

    pub fn contains_rect(&self, rect: &GeoRect) -> (r: bool)
        ensures
            r == self.contains_rect_spec(*rect),
    {
        if !self.crosses_dateline() && rect.crosses_dateline() {
            if self.top_left.lon_steps() > -LON_LIMIT || self.bottom_right.lon_steps() < LON_LIMIT {
                return false;
            }
        }
        self.contains_coord(&rect.top_left) && self.contains_coord(&rect.bottom_right)
    }

    pub fn intersects(&self, rect: &GeoRect) -> (r: bool)
        ensures
            r == self.intersects_spec(*rect),
    {
        let tl_lat = self.top_left.lat_steps();
        let br_lat = self.bottom_right.lat_steps();
        let other_tl_lat = rect.top_left.lat_steps();
        let other_br_lat = rect.bottom_right.lat_steps();
        if other_tl_lat < br_lat || other_br_lat > tl_lat {
            false
        } else if ((tl_lat == LAT_LIMIT || tl_lat == -LAT_LIMIT) && tl_lat == other_tl_lat) || ((
        br_lat == LAT_LIMIT || br_lat == -LAT_LIMIT) && br_lat == other_br_lat) {
            true
        } else {
            self.contains_lon(rect.top_left.lon_steps()) || self.contains_lon(
                rect.bottom_right.lon_steps(),
            )
        }
    }
}

/// Every rectangle intersects itself.
pub proof fn lemma_intersects_reflexive(r: GeoRect)
    requires
        r.wf(),
    ensures
        r.intersects_spec(r),
{
}

/// Two rectangles that both reach the same pole intersect, whatever their
/// longitudes.
pub proof fn lemma_intersects_at_pole(a: GeoRect, b: GeoRect)
    requires
        a.wf(),
        b.wf(),
        (a.north() == LAT_LIMIT && b.north() == LAT_LIMIT) || (a.south() == -LAT_LIMIT
            && b.south() == -LAT_LIMIT),
    ensures
        a.intersects_spec(b),
{
}

/// The reason a rectangle was refused: its top lies below its bottom.
#[derive(Debug, Clone, Copy, PartialEq, Eq, Structural)]
pub struct InvalidGeoRect;

impl InvalidGeoRect {
    /// The error's message.
    pub fn message(&self) -> (r: String)
        ensures
            r@ == "invalid rectangle given"@,
    {
        "invalid rectangle given".to_owned()
    }
}

/// A set of tile edges: left, right, bottom and top, which combine for the
/// diagonals.
#[derive(Debug, Clone, Copy, PartialEq, Eq, Structural)]
pub struct Edge {
    bits: u32,
}

pub const EDGE_LEFT: u32 = 1;

pub const EDGE_RIGHT: u32 = 2;

pub const EDGE_BOTTOM: u32 = 4;

pub const EDGE_TOP: u32 = 8;

impl Edge {
    pub closed spec fn bits_spec(self) -> u32 {
        self.bits
    }

    pub fn left() -> (r: Edge)
        ensures
            r.bits_spec() == EDGE_LEFT,
    {
        Edge { bits: EDGE_LEFT }
    }

    pub fn right() -> (r: Edge)
        ensures
            r.bits_spec() == EDGE_RIGHT,
    {
        Edge { bits: EDGE_RIGHT }
    }

    pub fn bottom() -> (r: Edge)
        ensures
            r.bits_spec() == EDGE_BOTTOM,
    {
        Edge { bits: EDGE_BOTTOM }
    }

    pub fn top() -> (r: Edge)
        ensures
            r.bits_spec() == EDGE_TOP,
    {
        Edge { bits: EDGE_TOP }
    }

    /// The edges of both sets.
    pub fn union(self, other: Edge) -> (r: Edge)
        ensures
            r.bits_spec() == self.bits_spec() | other.bits_spec(),
    {
        Edge { bits: self.bits | other.bits }
    }

    /// Whether every edge of `other` is in `self`.
    pub fn contains(&self, other: Edge) -> (r: bool)
        ensures
            r == (self.bits_spec() & other.bits_spec() == other.bits_spec()),
    {
        self.bits & other.bits == other.bits
    }

    pub fn bits(&self) -> (r: u32)
        ensures
            r == self.bits_spec(),
    {
        self.bits
    }
}

} // verus!
