use geotile::coord::GeoCoord;
use geotile::rect::{Edge, GeoRect};

fn coord(lon: i64, lat: i64) -> GeoCoord {
    GeoCoord::from_nanodegrees(lon * 1_000_000_000, lat * 1_000_000_000).unwrap()
}

fn rect(tl: (i64, i64), br: (i64, i64)) -> GeoRect {
    GeoRect::new(coord(tl.0, tl.1), coord(br.0, br.1)).unwrap()
}

#[test]
fn rect_construction() {
    let normal_rect = GeoRect::new(coord(-10, 20), coord(10, -20));
    assert!(normal_rect.is_ok());

    let crossing_rect = GeoRect::new(coord(10, 20), coord(-10, -20));
    assert!(crossing_rect.is_ok());

    let invalid_rect = GeoRect::new(coord(-10, -20), coord(10, 20));
    assert!(invalid_rect.is_err());
}

#[test]
fn center() {
    let normal_rect = rect((-10, 20), (10, -20));
    assert_eq!(normal_rect.center(), coord(0, 0));

    let normal_rect = rect((10, 20), (20, -20));
    assert_eq!(normal_rect.center(), coord(15, 0));

    let crossing_rect = rect((10, 20), (-10, -20));
    assert_eq!(crossing_rect.center(), coord(180, 0));

    let crossing_rect = rect((-10, 20), (-20, -20));
    assert_eq!(crossing_rect.center(), coord(165, 0));
}

#[test]
fn crosses_dateline() {
    let normal_rect = rect((-10, 20), (10, -20));
    assert!(!normal_rect.crosses_dateline());

    let crossing_rect = rect((10, 20), (-10, -20));
    assert!(crossing_rect.crosses_dateline());
}

#[test]
fn contains_coord() {
    let normal_rect = rect((-10, 20), (10, -20));
    assert!(normal_rect.contains_coord(&coord(0, 0)));
    assert!(!normal_rect.contains_coord(&coord(-20, 0)));
    assert!(!normal_rect.contains_coord(&coord(0, 30)));

    let crossing_rect = rect((10, 20), (-10, -20));
    assert!(crossing_rect.contains_coord(&coord(20, 0)));
    assert!(!crossing_rect.contains_coord(&coord(0, 0)));
}

#[test]
fn contains_rect() {
    let normal_rect_1 = rect((-10, 20), (10, -20));
    assert!(normal_rect_1.contains_rect(&normal_rect_1));

    let normal_rect_2 = rect((-5, 20), (5, -20));
    assert!(normal_rect_1.contains_rect(&normal_rect_2));

    let normal_rect_3 = rect((10, 25), (20, -15));
    assert!(!normal_rect_1.contains_rect(&normal_rect_3));

    let crossing_rect_1 = rect((10, 20), (-10, -20));
    assert!(!normal_rect_1.contains_rect(&crossing_rect_1));

    let crossing_rect_2 = rect((20, 20), (-20, -20));
    assert!(crossing_rect_1.contains_rect(&crossing_rect_2));

    let normal_rect_4 = rect((-10, 15), (10, -15));
    assert!(crossing_rect_1.contains_rect(&normal_rect_4));

    let normal_rect_5 = rect((-180, 40), (180, -40));
    assert!(normal_rect_5.contains_rect(&crossing_rect_1));
}

#[test]
fn intersects() {
    let normal_rect_1 = rect((-10, 20), (10, -20));
    assert!(normal_rect_1.intersects(&normal_rect_1));

    let normal_rect_2 = rect((-5, 20), (5, -20));
    assert!(normal_rect_1.intersects(&normal_rect_2));

    let normal_rect_3 = rect((10, 25), (20, -15));
    assert!(normal_rect_1.intersects(&normal_rect_3));

    let crossing_rect_1 = rect((10, 20), (-10, -20));
    assert!(normal_rect_1.intersects(&crossing_rect_1));

    let crossing_rect_2 = rect((5, 20), (-20, -20));
    assert!(crossing_rect_1.intersects(&crossing_rect_2));

    let normal_rect_4 = rect((-15, 15), (5, -15));
    assert!(crossing_rect_1.intersects(&normal_rect_4));

    let normal_rect_5 = rect((-175, 40), (-170, -40));
    assert!(!normal_rect_5.intersects(&crossing_rect_1));

    // GeoRects trivially intersect on the poles

    let north_pole_rect_1 = rect((-10, 90), (10, -20));
    let north_pole_rect_2 = rect((20, 90), (30, -20));
    assert!(north_pole_rect_1.intersects(&north_pole_rect_2));

    let south_pole_rect_1 = rect((-10, 20), (10, -90));
    let south_pole_rect_2 = rect((20, 20), (30, -90));
    assert!(south_pole_rect_1.intersects(&south_pole_rect_2));
}

#[test]
fn construction_fails_only_on_reversed_latitudes() {
    assert!(GeoRect::new(coord(0, 10), coord(0, 10)).is_ok());
    assert!(GeoRect::new(coord(50, 10), coord(-50, 10)).is_ok());
    assert!(GeoRect::new(coord(0, 9), coord(0, 10)).is_err());
    let r = rect((1, 2), (3, -4));
    assert_eq!(r.top_left(), coord(1, 2));
    assert_eq!(r.bottom_right(), coord(3, -4));
}

#[test]
fn center_wraps_back_into_range() {
    let crossing_rect = rect((170, 10), (160, -10));
    assert_eq!(crossing_rect.center(), coord(-15, 0));
}

#[test]
fn intersects_is_one_sided_on_longitude() {
    // only the other rectangle's corners are tested against this one's span
    let wide = rect((-50, 10), (50, -10));
    let narrow = rect((-5, 10), (5, -10));
    assert!(wide.intersects(&narrow));
    assert!(!narrow.intersects(&wide));
    let above = rect((-5, 40), (5, 30));
    assert!(!narrow.intersects(&above));
}

#[test]
fn intersects_is_reflexive() {
    for r in [rect((-10, 20), (10, -20)), rect((170, 5), (-170, -5)), rect((0, 90), (0, -90))] {
        assert!(r.intersects(&r));
    }
}

#[test]
fn edges_combine() {
    let top_left = Edge::top().union(Edge::left());
    assert_eq!(top_left.bits(), 9);
    assert!(top_left.contains(Edge::top()));
    assert!(top_left.contains(Edge::left()));
    assert!(!top_left.contains(Edge::right()));
    assert!(!Edge::bottom().contains(top_left));
    assert_eq!(Edge::bottom().union(Edge::right()).bits(), 6);
}

#[test]
fn rect_error_message() {
    assert_eq!(geotile::rect::InvalidGeoRect.message(), "invalid rectangle given");
}
