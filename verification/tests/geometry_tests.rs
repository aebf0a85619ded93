use geomage::geometry::{collect_coords, GeographicPoint, Geometry, PolygonRings};

fn gp(x: f64, y: f64) -> GeographicPoint {
    GeographicPoint { x: x.to_bits(), y: y.to_bits() }
}

#[test]
fn collect_coords_walks_every_variant_in_order() {
    let g = Geometry::GeometryCollection(vec![
        Geometry::Line(gp(1.0, 1.0), gp(2.0, 2.0)),
        Geometry::Polygon(PolygonRings {
            exterior: vec![gp(3.0, 3.0)],
            interiors: vec![vec![gp(4.0, 4.0)], vec![gp(5.0, 5.0)]],
        }),
        Geometry::GeometryCollection(vec![Geometry::Point(gp(6.0, 6.0))]),
        Geometry::Rect(gp(7.0, 7.0), gp(8.0, 8.0)),
        Geometry::Triangle(gp(9.0, 9.0), gp(10.0, 10.0), gp(11.0, 11.0)),
        Geometry::MultiLineString(vec![vec![gp(12.0, 12.0)]]),
        Geometry::MultiPolygon(vec![PolygonRings {
            exterior: vec![gp(13.0, 13.0)],
            interiors: vec![],
        }]),
        Geometry::MultiPoint(vec![gp(14.0, 14.0)]),
        Geometry::LineString(vec![gp(15.0, 15.0)]),
    ]);
    let mut out: Vec<GeographicPoint> = Vec::new();
    collect_coords(&g, &mut out);
    let expect: Vec<GeographicPoint> = (1..=15).map(|i| gp(i as f64, i as f64)).collect();
    assert_eq!(out, expect);
}
