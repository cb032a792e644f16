use geotile::coord::{
    CompactGeoCoord, GeoCoord, InvalidGeoCoord, TileCoord, LAT_LIMIT, LON_LIMIT,
    STEPS_PER_NANODEGREE,
};

const NANO: i64 = 1_000_000_000;

fn degrees(lon: i64, lat: i64) -> Result<GeoCoord, InvalidGeoCoord> {
    GeoCoord::from_nanodegrees(lon * NANO, lat * NANO)
}

#[test]
fn coord_construction() {
    assert_eq!(degrees(0, 91), Err(InvalidGeoCoord));
    assert_eq!(degrees(181, 0), Err(InvalidGeoCoord));

    assert!(GeoCoord::from_nanodegrees(2_294_500_000, 48_858_222_000).is_ok());
}

#[test]
fn equality() -> Result<(), InvalidGeoCoord> {
    let dateline_a = degrees(-180, 0)?;
    let dateline_b = degrees(180, 0)?;
    assert_eq!(dateline_a, dateline_b);

    let north_pole_a = degrees(-80, 90)?;
    let north_pole_b = degrees(80, 90)?;
    assert_eq!(north_pole_a, north_pole_b);

    let north_pole = degrees(-80, 90)?;
    let south_pole = degrees(80, -90)?;
    assert_ne!(north_pole, south_pole);

    Ok(())
}

#[test]
fn encoding() {
    let raw_coord = GeoCoord::from_nanodegrees(2_294_500_000, 48_858_222_000).unwrap();

    let encoded_coord = CompactGeoCoord::from(raw_coord);
    assert_eq!((encoded_coord.lon(), encoded_coord.lat()), (27374451, 582901293));
    assert_eq!(encoded_coord.morton_code(), 579221254078012839);

    let decoded_coord = GeoCoord::from(encoded_coord);
    // 2.2944999765604734 and 48.858221964910626 degrees, exactly
    assert_eq!(decoded_coord.lon_steps(), 27374451 * 87890625);
    assert_eq!(decoded_coord.lat_steps(), 582901293 * 87890625);
    assert_eq!(decoded_coord.to_nanodegrees(), (2_294_499_976, 48_858_221_964));
}

#[test]
fn construction_accepts_exactly_the_range() {
    assert!(degrees(180, 90).is_ok());
    assert!(degrees(-180, -90).is_ok());
    assert!(GeoCoord::from_nanodegrees(180 * NANO + 1, 0).is_err());
    assert!(GeoCoord::from_nanodegrees(0, -90 * NANO - 1).is_err());
    assert!(GeoCoord::from_nanodegrees(i64::MAX, i64::MIN).is_err());
    assert!(GeoCoord::from_steps(LON_LIMIT, LAT_LIMIT).is_ok());
    assert!(GeoCoord::from_steps(LON_LIMIT + 1, 0).is_err());
    assert!(GeoCoord::from_steps(0, -LAT_LIMIT - 1).is_err());
}

#[test]
fn nanodegrees_round_down() {
    let c = GeoCoord::from_steps(-1, STEPS_PER_NANODEGREE + 1).unwrap();
    assert_eq!(c.to_nanodegrees(), (-1, 1));
    let c = degrees(-12, 34).unwrap();
    assert_eq!(c.to_nanodegrees(), (-12 * NANO, 34 * NANO));
    assert_eq!(c.lon_steps(), -12 * NANO * STEPS_PER_NANODEGREE);
}

#[test]
fn antimeridian_identity_at_any_latitude() {
    for lat in [-90, -45, 0, 33, 90] {
        assert_eq!(degrees(-180, lat).unwrap(), degrees(180, lat).unwrap());
    }
}

#[test]
fn pole_identity_and_distinct_poles() {
    assert_eq!(degrees(10, -90).unwrap(), degrees(-170, -90).unwrap());
    assert_ne!(degrees(10, 90).unwrap(), degrees(10, -90).unwrap());
    assert_ne!(degrees(10, 45).unwrap(), degrees(20, 45).unwrap());
    assert_eq!(degrees(10, 45).unwrap(), degrees(10, 45).unwrap());
}

#[test]
fn compact_encoding_holds_at_the_east_edge() {
    let east = CompactGeoCoord::from(degrees(180, 90).unwrap());
    assert_eq!((east.lon(), east.lat()), (i32::MAX, 1 << 30));
    let west = CompactGeoCoord::from(degrees(-180, -90).unwrap());
    assert_eq!((west.lon(), west.lat()), (i32::MIN, -(1 << 30)));
    let back = GeoCoord::from(west);
    assert_eq!((back.lon_steps(), back.lat_steps()), (-LON_LIMIT, -LAT_LIMIT));
}

#[test]
fn morton_code_interleaves_bits() {
    let c = CompactGeoCoord::from(GeoCoord::from_steps(87890625, 0).unwrap());
    assert_eq!((c.lon(), c.lat()), (1, 0));
    assert_eq!(c.morton_code(), 1);
    let c = CompactGeoCoord::from(GeoCoord::from_steps(0, 87890625).unwrap());
    assert_eq!(c.morton_code(), 2);
    let c = CompactGeoCoord::from(GeoCoord::from_steps(-87890625, 0).unwrap());
    assert_eq!(c.lon(), -1);
    assert_eq!(c.morton_code(), 0x5555_5555_5555_5555);
}

#[test]
fn tile_coord_difference_and_conversions() {
    let a = TileCoord::new(3, -4);
    let b = TileCoord::from((10, 20));
    assert_eq!(a.diff_to(&b), TileCoord { x: 7, y: 24 });
    let pair: (i32, i32) = b.into();
    assert_eq!(pair, (10, 20));
}

#[test]
fn error_message() {
    assert_eq!(InvalidGeoCoord.message(), "invalid coordinate given");
}
