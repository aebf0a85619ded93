use geomage::geometry::{GeographicPoint, Geometry, PolygonRings};
use geomage::viewport::{resolve_viewport, Viewport, ViewportError, WORLD_MAX_X_BITS,
    WORLD_MAX_Y_BITS, WORLD_MIN_X_BITS, WORLD_MIN_Y_BITS};

fn gp(x: f64, y: f64) -> GeographicPoint {
    GeographicPoint { x: x.to_bits(), y: y.to_bits() }
}

#[test]
fn world_mode_gives_world_viewport_and_square_image() {
    let gs = vec![Geometry::Point(gp(10.0, 20.0))];
    let (v, h) = resolve_viewport(&gs, false, 1024).unwrap();
    assert_eq!(v, Viewport {
        min: GeographicPoint { x: WORLD_MIN_X_BITS, y: WORLD_MIN_Y_BITS },
        max: GeographicPoint { x: WORLD_MAX_X_BITS, y: WORLD_MAX_Y_BITS },
    });
    assert_eq!(h, 1024);
}

#[test]
fn fit_mode_tightly_bounds_the_data_and_keeps_aspect() {
    let gs = vec![
        Geometry::LineString(vec![gp(0.0, 0.0), gp(10.0, 5.0)]),
        Geometry::Point(gp(4.0, 2.0)),
    ];
    let (v, h) = resolve_viewport(&gs, true, 100).unwrap();
    assert_eq!(v, Viewport { min: gp(0.0, 0.0), max: gp(10.0, 5.0) });
    // ratio = 10 / 5 = 2, so height = 100 / 2 = 50
    assert_eq!(h, 50);
}

#[test]
fn fit_mode_covers_coordinates_of_every_variant() {
    let gs = vec![Geometry::GeometryCollection(vec![
        Geometry::MultiPoint(vec![gp(-4.0, 1.0)]),
        Geometry::Polygon(PolygonRings {
            exterior: vec![gp(0.0, 0.0), gp(2.0, 0.0), gp(2.0, 8.0), gp(0.0, 0.0)],
            interiors: vec![vec![gp(1.0, 12.0)]],
        }),
        Geometry::Triangle(gp(6.0, 3.0), gp(5.0, 4.0), gp(4.0, 5.0)),
    ])];
    let (v, _) = resolve_viewport(&gs, true, 64).unwrap();
    // bounding property and tightness: every coordinate inside, each side hit
    assert_eq!(v, Viewport { min: gp(-4.0, 0.0), max: gp(6.0, 12.0) });
}

#[test]
fn fractional_aspect_ratio_rounds_the_height() {
    // ratio = 3 / 2, so 100 / 1.5 = 66.66... rounds to 67
    let gs = vec![Geometry::Line(gp(0.0, 0.0), gp(3.0, 2.0))];
    let (_, h) = resolve_viewport(&gs, true, 100).unwrap();
    assert_eq!(h, 67);
}

#[test]
fn empty_dataset_is_rejected() {
    let gs: Vec<Geometry> = vec![];
    assert_eq!(resolve_viewport(&gs, true, 100), Err(ViewportError::EmptyGeometry));
    let gs2 = vec![Geometry::LineString(vec![]), Geometry::GeometryCollection(vec![])];
    assert_eq!(resolve_viewport(&gs2, true, 100), Err(ViewportError::EmptyGeometry));
}

#[test]
fn single_point_dataset_is_a_degenerate_viewport() {
    // fit-to-data over one point: zero-area bounding rectangle, explicit
    // failure instead of an image
    let gs = vec![Geometry::Point(gp(10.0, 20.0))];
    assert_eq!(resolve_viewport(&gs, true, 100), Err(ViewportError::DegenerateViewport));
}

#[test]
fn horizontal_dataset_is_a_degenerate_viewport() {
    let gs = vec![Geometry::Line(gp(0.0, 3.0), gp(9.0, 3.0))];
    assert_eq!(resolve_viewport(&gs, true, 100), Err(ViewportError::DegenerateViewport));
}
