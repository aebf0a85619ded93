//! Cross-checks the bit-pattern pipeline against the same double-precision
//! formulas computed directly on floats.
use geomage::geometry::{GeographicPoint, Geometry};
use geomage::project::project_coordinate;
use geomage::viewport::{resolve_viewport, Viewport};

fn gp(x: f64, y: f64) -> GeographicPoint {
    GeographicPoint { x: x.to_bits(), y: y.to_bits() }
}

fn reference_project(
    coordinate: (f64, f64),
    (min_x, min_y): (f64, f64),
    (max_x, max_y): (f64, f64),
    (w, h): (u32, u32),
) -> (i32, i32) {
    let height = h as f64;
    let width = w as f64;
    let x = (coordinate.0 + (min_x * -1.0)) * (width / (max_x - min_x));
    let mut y = height - ((coordinate.1 + (min_y * -1.0)) * (height / (max_y - min_y)));
    if y.is_infinite() {
        y = height;
    } else if y.is_nan() {
        y = 0.0;
    }
    (x as i32, y as i32)
}

#[test]
fn projection_matches_the_double_formula() {
    let viewports = [
        ((-180.0, -90.0), (180.0, 90.0)),
        ((0.0, 0.0), (0.3, 0.7)),
        ((-1.5, 2.5), (1.5, 2.5)),   // zero height
        ((4.0, -3.0), (4.0, 9.0)),   // zero width
        ((-1e300, -1e300), (1e300, 1e300)),
        ((0.1, 0.2), (10.3, 77.7)),
        ((-0.0, -0.0), (1.0, 1.0)),
    ];
    let coords = [
        (-180.0, -90.0),
        (180.0, 90.0),
        (0.0, 0.0),
        (-0.0, -0.0),
        (10.0, 20.0),
        (1e308, -1e308),
        (f64::INFINITY, f64::NEG_INFINITY),
        (f64::NAN, f64::NAN),
        (5e-324, -5e-324),
        (0.1, 0.3),
    ];
    let dims = [(1, 1), (200, 100), (1024, 1024), (7, 13)];
    for &(mn, mx) in &viewports {
        let v = Viewport { min: gp(mn.0, mn.1), max: gp(mx.0, mx.1) };
        for &c in &coords {
            for &d in &dims {
                let got = project_coordinate(gp(c.0, c.1), v, d.0, d.1);
                let want = reference_project(c, mn, mx, d);
                assert_eq!(
                    (got.x, got.y),
                    want,
                    "mismatch for coord {c:?} viewport {mn:?}..{mx:?} dims {d:?}"
                );
            }
        }
    }
}

#[test]
fn resolver_height_matches_the_double_formula() {
    let datasets: [&[(f64, f64)]; 4] = [
        &[(0.25, -3.5), (19.75, 7.25), (4.0, 0.125)],
        &[(0.1, 0.2), (10.3, 77.7)],
        // infinite aspect ratio: the height truncates to zero
        &[(-1e308, 0.0), (1.5e308, 1.0)],
        // infinite height: the ratio is zero, the quotient saturates
        &[(0.0, -1e308), (1.0, 1.5e308)],
    ];
    for pts in datasets {
        let gs: Vec<Geometry> = pts.iter().map(|&(x, y)| Geometry::Point(gp(x, y))).collect();
        let width: u32 = 640;
        let (v, h) = resolve_viewport(&gs, true, width).unwrap();
        let min_x = pts.iter().map(|p| p.0).fold(f64::INFINITY, f64::min);
        let max_x = pts.iter().map(|p| p.0).fold(f64::NEG_INFINITY, f64::max);
        let min_y = pts.iter().map(|p| p.1).fold(f64::INFINITY, f64::min);
        let max_y = pts.iter().map(|p| p.1).fold(f64::NEG_INFINITY, f64::max);
        assert_eq!(v.min.x, min_x.to_bits());
        assert_eq!(v.max.x, max_x.to_bits());
        assert_eq!(v.min.y, min_y.to_bits());
        assert_eq!(v.max.y, max_y.to_bits());
        let ratio = (max_x - min_x) / (max_y - min_y);
        let want = (width as f64 / ratio).round() as u32;
        assert_eq!(h, want, "height mismatch for {pts:?}");
    }
}
