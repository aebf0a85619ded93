use geomage::geometry::GeographicPoint;
use geomage::project::{project_coordinate, PixelCoordinate};
use geomage::viewport::{Viewport, WORLD_MAX_X_BITS, WORLD_MAX_Y_BITS, WORLD_MIN_X_BITS,
    WORLD_MIN_Y_BITS};

fn gp(x: f64, y: f64) -> GeographicPoint {
    GeographicPoint { x: x.to_bits(), y: y.to_bits() }
}

fn vp(min_x: f64, min_y: f64, max_x: f64, max_y: f64) -> Viewport {
    Viewport { min: gp(min_x, min_y), max: gp(max_x, max_y) }
}

#[test]
fn world_constants_are_the_world_extent() {
    assert_eq!(WORLD_MIN_X_BITS, (-180.0f64).to_bits());
    assert_eq!(WORLD_MIN_Y_BITS, (-90.0f64).to_bits());
    assert_eq!(WORLD_MAX_X_BITS, 180.0f64.to_bits());
    assert_eq!(WORLD_MAX_Y_BITS, 90.0f64.to_bits());
}

#[test]
fn projecting_viewport_corners_hits_canvas_corners() {
    // affine-map boundary law on an exactly representable viewport
    let v = vp(0.0, 0.0, 8.0, 4.0);
    let bottom_left = project_coordinate(gp(0.0, 0.0), v, 64, 32);
    assert_eq!(bottom_left, PixelCoordinate { x: 0, y: 32 });
    let top_right = project_coordinate(gp(8.0, 4.0), v, 64, 32);
    assert_eq!(top_right, PixelCoordinate { x: 64, y: 0 });
}

#[test]
fn world_line_endpoints_project_to_expected_pixels() {
    let v = Viewport {
        min: GeographicPoint { x: WORLD_MIN_X_BITS, y: WORLD_MIN_Y_BITS },
        max: GeographicPoint { x: WORLD_MAX_X_BITS, y: WORLD_MAX_Y_BITS },
    };
    let start = project_coordinate(gp(-180.0, -90.0), v, 200, 100);
    let end = project_coordinate(gp(180.0, 90.0), v, 200, 100);
    assert_eq!(start, PixelCoordinate { x: 0, y: 100 });
    assert_eq!(end, PixelCoordinate { x: 200, y: 0 });
}

#[test]
fn strictly_interior_points_land_on_the_canvas() {
    let v = vp(-180.0, -90.0, 180.0, 90.0);
    let w: u32 = 200;
    let h: u32 = 100;
    let samples = [(-179.9, -89.9), (0.0, 0.0), (10.0, 20.0), (179.9, 89.9), (-1.25, 88.0)];
    for &(x, y) in &samples {
        let c = project_coordinate(gp(x, y), v, w, h);
        assert!(0 <= c.x && c.x < w as i32, "x out of range for ({x}, {y}): {}", c.x);
        assert!(0 <= c.y && c.y < h as i32, "y out of range for ({x}, {y}): {}", c.y);
    }
}

#[test]
fn zero_height_viewport_substitutes_y() {
    // height 0: the scale is infinite; a point off the base line maps the
    // infinite y to the canvas height, a point on it maps NaN to 0
    let v = vp(0.0, 5.0, 10.0, 5.0);
    let off_line = project_coordinate(gp(2.0, 7.0), v, 100, 50);
    assert_eq!(off_line.y, 50);
    let on_line = project_coordinate(gp(2.0, 5.0), v, 100, 50);
    assert_eq!(on_line.y, 0);
}

#[test]
fn zero_width_viewport_propagates_into_x() {
    // the documented asymmetry: x gets no substitution, so the infinite
    // scale saturates and the undefined case truncates to 0
    let v = vp(5.0, 0.0, 5.0, 10.0);
    let off_line = project_coordinate(gp(7.0, 2.0), v, 100, 50);
    assert_eq!(off_line.x, i32::MAX);
    let on_line = project_coordinate(gp(5.0, 2.0), v, 100, 50);
    assert_eq!(on_line.x, 0);
}
