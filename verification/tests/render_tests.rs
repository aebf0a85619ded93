use geomage::canvas::{draw_geometry, draw_line, draw_line_string, draw_point, render_collection,
    Canvas};
use geomage::geometry::{GeographicPoint, Geometry, PolygonRings};
use geomage::viewport::Viewport;

const BLACK: u32 = 0x0000_00FF;

fn gp(x: f64, y: f64) -> GeographicPoint {
    GeographicPoint { x: x.to_bits(), y: y.to_bits() }
}

fn vp(min_x: f64, min_y: f64, max_x: f64, max_y: f64) -> Viewport {
    Viewport {
        min: gp(min_x, min_y),
        max: gp(max_x, max_y),
    }
}

fn white_canvas(w: u32, h: u32) -> Canvas {
    let mut c = Canvas::new(w, h);
    c.fill(255);
    c
}

fn render_one(g: &Geometry, v: Viewport, w: u32, h: u32) -> Vec<u8> {
    let mut c = white_canvas(w, h);
    draw_geometry(g, &mut c, v, BLACK);
    c.to_bytes()
}

#[test]
fn filled_canvas_is_uniform() {
    let c = white_canvas(4, 3);
    let bytes = c.to_bytes();
    assert_eq!(bytes.len(), 4 * 4 * 3);
    assert!(bytes.iter().all(|&b| b == 255));
}

#[test]
fn drawing_a_point_marks_the_canvas() {
    let v = vp(0.0, 0.0, 8.0, 8.0);
    let mut c = white_canvas(32, 32);
    draw_point(gp(4.0, 4.0), &mut c, v, BLACK);
    let bytes = c.to_bytes();
    assert!(bytes.iter().any(|&b| b != 255));
    // center of the canvas, y-flipped: pixel (16, 16)
    let idx = (16usize * 32 + 16) * 4;
    assert_eq!(&bytes[idx..idx + 4], &[0, 0, 0, 255]);
}

#[test]
fn drawing_a_segment_marks_the_canvas() {
    let v = vp(0.0, 0.0, 8.0, 8.0);
    let mut c = white_canvas(32, 32);
    draw_line(gp(1.0, 1.0), gp(7.0, 7.0), &mut c, v, BLACK);
    assert!(c.to_bytes().iter().any(|&b| b != 255));
}

#[test]
fn single_point_line_string_draws_nothing() {
    let v = vp(0.0, 0.0, 8.0, 8.0);
    let background = white_canvas(32, 32).to_bytes();
    let mut c = white_canvas(32, 32);
    draw_line_string(&vec![gp(4.0, 4.0)], &mut c, v, BLACK);
    assert_eq!(c.to_bytes(), background);
}

#[test]
fn two_point_line_string_equals_the_line_geometry() {
    let v = vp(0.0, 0.0, 8.0, 8.0);
    let a = gp(1.0, 2.0);
    let b = gp(7.0, 5.0);
    let ls = render_one(&Geometry::LineString(vec![a, b]), v, 32, 32);
    let line = render_one(&Geometry::Line(a, b), v, 32, 32);
    assert_eq!(ls, line);
    assert!(ls.iter().any(|&x| x != 255));
}

#[test]
fn nested_collection_renders_like_the_flat_one() {
    let v = vp(0.0, 0.0, 8.0, 8.0);
    let members = || {
        vec![
            Geometry::Point(gp(2.0, 2.0)),
            Geometry::Line(gp(1.0, 1.0), gp(7.0, 3.0)),
            Geometry::LineString(vec![gp(0.5, 6.0), gp(3.0, 7.0), gp(6.0, 6.5)]),
        ]
    };
    let flat = render_one(&Geometry::GeometryCollection(members()), v, 48, 48);
    let nested = render_one(
        &Geometry::GeometryCollection(vec![Geometry::GeometryCollection(members())]),
        v,
        48,
        48,
    );
    assert_eq!(flat, nested);
    assert!(flat.iter().any(|&x| x != 255));
}

#[test]
fn rect_renders_as_its_polygon_ring() {
    let v = vp(0.0, 0.0, 8.0, 8.0);
    let mn = gp(2.0, 2.0);
    let mx = gp(6.0, 5.0);
    let rect = render_one(&Geometry::Rect(mn, mx), v, 48, 48);
    let ring = vec![
        gp(6.0, 2.0),
        gp(6.0, 5.0),
        gp(2.0, 5.0),
        gp(2.0, 2.0),
        gp(6.0, 2.0),
    ];
    let poly = render_one(
        &Geometry::Polygon(PolygonRings { exterior: ring, interiors: vec![] }),
        v,
        48,
        48,
    );
    assert_eq!(rect, poly);
    assert!(rect.iter().any(|&x| x != 255));
}

#[test]
fn triangle_renders_as_its_closed_ring() {
    let v = vp(0.0, 0.0, 8.0, 8.0);
    let (a, b, c) = (gp(1.0, 1.0), gp(7.0, 2.0), gp(4.0, 6.0));
    let tri = render_one(&Geometry::Triangle(a, b, c), v, 48, 48);
    let ls = render_one(&Geometry::LineString(vec![a, b, c, a]), v, 48, 48);
    assert_eq!(tri, ls);
    assert!(tri.iter().any(|&x| x != 255));
}

#[test]
fn multi_geometries_render_their_members_in_order() {
    let v = vp(0.0, 0.0, 8.0, 8.0);
    let p1 = gp(1.0, 1.0);
    let p2 = gp(6.0, 6.0);
    let multi = render_one(&Geometry::MultiPoint(vec![p1, p2]), v, 48, 48);
    let collection = render_one(
        &Geometry::GeometryCollection(vec![Geometry::Point(p1), Geometry::Point(p2)]),
        v,
        48,
        48,
    );
    assert_eq!(multi, collection);
}

#[test]
fn interior_rings_are_not_rendered() {
    let v = vp(0.0, 0.0, 8.0, 8.0);
    let exterior = vec![gp(1.0, 1.0), gp(7.0, 1.0), gp(7.0, 7.0), gp(1.0, 7.0), gp(1.0, 1.0)];
    let with_hole = render_one(
        &Geometry::Polygon(PolygonRings {
            exterior: exterior.clone(),
            interiors: vec![vec![gp(3.0, 3.0), gp(5.0, 3.0), gp(5.0, 5.0), gp(3.0, 3.0)]],
        }),
        v,
        48,
        48,
    );
    let without = render_one(
        &Geometry::Polygon(PolygonRings { exterior, interiors: vec![] }),
        v,
        48,
        48,
    );
    assert_eq!(with_hole, without);
}

#[test]
fn world_line_scenario_renders_across_the_canvas() {
    // two-point line string across the whole world on a 200 x 100 canvas:
    // the stroke runs from pixel (0, 100) to pixel (200, 0)
    let v = vp(-180.0, -90.0, 180.0, 90.0);
    let ls = Geometry::LineString(vec![gp(-180.0, -90.0), gp(180.0, 90.0)]);
    let rendered = render_one(&ls, v, 200, 100);
    assert!(rendered.iter().any(|&x| x != 255));
    let line = render_one(&Geometry::Line(gp(-180.0, -90.0), gp(180.0, 90.0)), v, 200, 100);
    assert_eq!(rendered, line);
    // a pixel near the middle of the diagonal is painted
    let idx = (50usize * 200 + 100) * 4;
    assert!(rendered[idx..idx + 4] != [255, 255, 255, 255]);
}

#[test]
fn render_collection_draws_every_top_level_geometry() {
    let v = vp(0.0, 0.0, 8.0, 8.0);
    let gs = vec![
        Geometry::Point(gp(2.0, 2.0)),
        Geometry::Line(gp(0.5, 0.5), gp(7.5, 7.5)),
    ];
    let mut c = white_canvas(48, 48);
    render_collection(&gs, &mut c, v, BLACK);
    let all = c.to_bytes();
    let mut c2 = white_canvas(48, 48);
    draw_geometry(&gs[0], &mut c2, v, BLACK);
    draw_geometry(&gs[1], &mut c2, v, BLACK);
    assert_eq!(all, c2.to_bytes());
    assert!(all.iter().any(|&x| x != 255));
}
