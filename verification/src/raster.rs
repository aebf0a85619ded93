//! The geometry rasterizer's drawing plan: every geometry variant reduces,
//! in traversal order, to a sequence of filled-circle and anti-aliased
//! line-segment drawing operations in pixel space.
use vstd::prelude::*;
use crate::geometry::{GeographicPoint, Geometry, PolygonRings};
use crate::project::{spec_project, PixelCoordinate};
use crate::viewport::Viewport;

verus! {

/// Radius in pixels of the filled circle drawn for a point.
pub const POINT_RADIUS: i32 = 2;

/// Pixel coordinates up to this magnitude are handed to the drawing
/// primitives; beyond it the primitives' own integer arithmetic overflows,
/// so such strokes (entirely off any canvas this far out) are skipped.
pub const PIXEL_BOUND: i32 = 0x3FFF_FFFF;

/// One primitive operation against the canvas.
#[derive(Clone, Copy, PartialEq, Eq, Structural, Debug)]
pub enum DrawOp {
    Circle { center: PixelCoordinate, radius: i32 },
    Segment { start: PixelCoordinate, end: PixelCoordinate },
}

pub open spec fn in_band(c: PixelCoordinate) -> bool {
    &&& -PIXEL_BOUND <= c.x <= PIXEL_BOUND
    &&& -PIXEL_BOUND <= c.y <= PIXEL_BOUND
}

pub fn check_band(c: PixelCoordinate) -> (r: bool)
    ensures
        r == in_band(c),
{
    -PIXEL_BOUND <= c.x && c.x <= PIXEL_BOUND && -PIXEL_BOUND <= c.y && c.y <= PIXEL_BOUND
}

/// A point draws one filled circle at its projection.
pub open spec fn point_ops(p: GeographicPoint, v: Viewport, w: u32, h: u32) -> Seq<DrawOp> {
    let c = spec_project(p, v, w, h);
    if in_band(c) {
        seq![DrawOp::Circle { center: c, radius: POINT_RADIUS }]
    } else {
        Seq::empty()
    }
}

/// A two-point segment draws one anti-aliased line between the projections.
pub open spec fn segment_ops(a: GeographicPoint, b: GeographicPoint, v: Viewport, w: u32, h: u32)
    -> Seq<DrawOp> {
    let ca = spec_project(a, v, w, h);
    let cb = spec_project(b, v, w, h);
    if in_band(ca) && in_band(cb) {
        seq![DrawOp::Segment { start: ca, end: cb }]
    } else {
        Seq::empty()
    }
}

/// A line string draws one segment between each consecutive pair of
/// vertices; fewer than two vertices draw nothing.
pub open spec fn linestring_ops(s: Seq<GeographicPoint>, v: Viewport, w: u32, h: u32) -> Seq<
    DrawOp,
>
    decreases s.len(),
{
    if s.len() < 2 {
        Seq::empty()
    } else {
        segment_ops(s[0], s[1], v, w, h) + linestring_ops(s.drop_first(), v, w, h)
    }
}

pub open spec fn multipoint_ops(s: Seq<GeographicPoint>, v: Viewport, w: u32, h: u32) -> Seq<
    DrawOp,
>
    decreases s.len(),
{
    if s.len() == 0 {
        Seq::empty()
    } else {
        point_ops(s[0], v, w, h) + multipoint_ops(s.drop_first(), v, w, h)
    }
}

pub open spec fn rings_ops(s: Seq<Vec<GeographicPoint>>, v: Viewport, w: u32, h: u32) -> Seq<
    DrawOp,
>
    decreases s.len(),
{
    if s.len() == 0 {
        Seq::empty()
    } else {
        linestring_ops(s[0]@, v, w, h) + rings_ops(s.drop_first(), v, w, h)
    }
}

/// A polygon draws the edges of its exterior ring only; holes are not
/// rendered (explicit scope limitation).
pub open spec fn polygon_ops(p: PolygonRings, v: Viewport, w: u32, h: u32) -> Seq<DrawOp> {
    linestring_ops(p.exterior@, v, w, h)
}

pub open spec fn polys_ops(s: Seq<PolygonRings>, v: Viewport, w: u32, h: u32) -> Seq<DrawOp>
    decreases s.len(),
{
    if s.len() == 0 {
        Seq::empty()
    } else {
        polygon_ops(s[0], v, w, h) + polys_ops(s.drop_first(), v, w, h)
    }
}

/// The closed 5-vertex ring equivalent to a rectangle, in the order the
/// rectangle-to-polygon conversion produces.
pub open spec fn rect_ring(mn: GeographicPoint, mx: GeographicPoint) -> Seq<GeographicPoint> {
    seq![
        GeographicPoint { x: mx.x, y: mn.y },
        GeographicPoint { x: mx.x, y: mx.y },
        GeographicPoint { x: mn.x, y: mx.y },
        GeographicPoint { x: mn.x, y: mn.y },
        GeographicPoint { x: mx.x, y: mn.y },
    ]
}

/// The closed 4-vertex ring equivalent to a triangle.
pub open spec fn triangle_ring(a: GeographicPoint, b: GeographicPoint, c: GeographicPoint) -> Seq<
    GeographicPoint,
> {
    seq![a, b, c, a]
}

/// The drawing operations a geometry reduces to, dispatching recursively
/// over the variant set.
pub open spec fn ops_of(g: Geometry, v: Viewport, w: u32, h: u32) -> Seq<DrawOp>
    decreases g, 0int,
{
    match g {
        Geometry::Point(p) => point_ops(p, v, w, h),
        Geometry::Line(a, b) => segment_ops(a, b, v, w, h),
        Geometry::LineString(ps) => linestring_ops(ps@, v, w, h),
        Geometry::Polygon(p) => polygon_ops(p, v, w, h),
        Geometry::MultiPoint(ps) => multipoint_ops(ps@, v, w, h),
        Geometry::MultiLineString(ls) => rings_ops(ls@, v, w, h),
        Geometry::MultiPolygon(ps) => polys_ops(ps@, v, w, h),
        Geometry::GeometryCollection(gs) => collection_ops(gs@, v, w, h),
        Geometry::Rect(mn, mx) => linestring_ops(rect_ring(mn, mx), v, w, h),
        Geometry::Triangle(a, b, c) => linestring_ops(triangle_ring(a, b, c), v, w, h),
    }
}

/// The drawing operations of a sequence of geometries, in order.
pub open spec fn collection_ops(s: Seq<Geometry>, v: Viewport, w: u32, h: u32) -> Seq<DrawOp>
    decreases s, s.len(),
{
    if s.len() == 0 {
        Seq::empty()
    } else {
        ops_of(s[0], v, w, h) + collection_ops(s.drop_first(), v, w, h)
    }
}

pub proof fn lemma_multipoint_ops_take_snoc(s: Seq<GeographicPoint>, v: Viewport, w: u32, h: u32, i: int)
    requires
        0 < i <= s.len(),
    ensures
        multipoint_ops(s.take(i), v, w, h) == multipoint_ops(s.take(i - 1), v, w, h) + point_ops(
            s[i - 1],
            v,
            w,
            h,
        ),
    decreases i,
{
    if i == 1 {
        assert(s.take(1).len() == 1);
        assert(s.take(1)[0] == s[0]);
        assert(s.take(1).drop_first() =~= Seq::<GeographicPoint>::empty());
        assert(multipoint_ops(Seq::<GeographicPoint>::empty(), v, w, h) == Seq::<DrawOp>::empty());
        assert(multipoint_ops(s.take(1), v, w, h) == point_ops(s.take(1)[0], v, w, h)
            + multipoint_ops(s.take(1).drop_first(), v, w, h));
        assert(multipoint_ops(s.take(1), v, w, h) =~= point_ops(s[0], v, w, h));
        assert(s.take(0) =~= Seq::<GeographicPoint>::empty());
        assert(multipoint_ops(s.take(0), v, w, h) + point_ops(s[0], v, w, h) =~= point_ops(
            s[0],
            v,
            w,
            h,
        ));
    } else {
        let t = s.drop_first();
        lemma_multipoint_ops_take_snoc(t, v, w, h, i - 1);
        assert(s.take(i).drop_first() =~= t.take(i - 1));
        assert(s.take(i - 1).drop_first() =~= t.take(i - 2));
        assert(s.take(i)[0] == s[0]);
        assert(s.take(i - 1)[0] == s[0]);
        assert(t[i - 2] == s[i - 1]);
        assert(multipoint_ops(s.take(i), v, w, h) == point_ops(s[0], v, w, h) + multipoint_ops(
            t.take(i - 1),
            v,
            w,
            h,
        ));
        assert(multipoint_ops(s.take(i - 1), v, w, h) == point_ops(s[0], v, w, h) + multipoint_ops(
            t.take(i - 2),
            v,
            w,
            h,
        ));
        assert(point_ops(s[0], v, w, h) + (multipoint_ops(t.take(i - 2), v, w, h) + point_ops(
            s[i - 1],
            v,
            w,
            h,
        )) =~= (point_ops(s[0], v, w, h) + multipoint_ops(t.take(i - 2), v, w, h)) + point_ops(
            s[i - 1],
            v,
            w,
            h,
        ));
    }
}

pub proof fn lemma_rings_ops_take_snoc(s: Seq<Vec<GeographicPoint>>, v: Viewport, w: u32, h: u32, i: int)
    requires
        0 < i <= s.len(),
    ensures
        rings_ops(s.take(i), v, w, h) == rings_ops(s.take(i - 1), v, w, h) + linestring_ops(
            s[i - 1]@,
            v,
            w,
            h,
        ),
    decreases i,
{
    if i == 1 {
        assert(s.take(1).len() == 1);
        assert(s.take(1)[0] == s[0]);
        assert(s.take(1).drop_first() =~= Seq::<Vec<GeographicPoint>>::empty());
        assert(rings_ops(Seq::<Vec<GeographicPoint>>::empty(), v, w, h) == Seq::<DrawOp>::empty());
        assert(rings_ops(s.take(1), v, w, h) == linestring_ops(s.take(1)[0]@, v, w, h) + rings_ops(
            s.take(1).drop_first(),
            v,
            w,
            h,
        ));
        assert(rings_ops(s.take(1), v, w, h) =~= linestring_ops(s[0]@, v, w, h));
        assert(s.take(0) =~= Seq::<Vec<GeographicPoint>>::empty());
        assert(rings_ops(s.take(0), v, w, h) + linestring_ops(s[0]@, v, w, h) =~= linestring_ops(
            s[0]@,
            v,
            w,
            h,
        ));
    } else {
        let t = s.drop_first();
        lemma_rings_ops_take_snoc(t, v, w, h, i - 1);
        assert(s.take(i).drop_first() =~= t.take(i - 1));
        assert(s.take(i - 1).drop_first() =~= t.take(i - 2));
        assert(s.take(i)[0] == s[0]);
        assert(s.take(i - 1)[0] == s[0]);
        assert(t[i - 2] == s[i - 1]);
        assert(rings_ops(s.take(i), v, w, h) == linestring_ops(s[0]@, v, w, h) + rings_ops(
            t.take(i - 1),
            v,
            w,
            h,
        ));
        assert(rings_ops(s.take(i - 1), v, w, h) == linestring_ops(s[0]@, v, w, h) + rings_ops(
            t.take(i - 2),
            v,
            w,
            h,
        ));
        assert(linestring_ops(s[0]@, v, w, h) + (rings_ops(t.take(i - 2), v, w, h)
            + linestring_ops(s[i - 1]@, v, w, h)) =~= (linestring_ops(s[0]@, v, w, h) + rings_ops(
            t.take(i - 2),
            v,
            w,
            h,
        )) + linestring_ops(s[i - 1]@, v, w, h));
    }
}

pub proof fn lemma_polys_ops_take_snoc(s: Seq<PolygonRings>, v: Viewport, w: u32, h: u32, i: int)
    requires
        0 < i <= s.len(),
    ensures
        polys_ops(s.take(i), v, w, h) == polys_ops(s.take(i - 1), v, w, h) + polygon_ops(
            s[i - 1],
            v,
            w,
            h,
        ),
    decreases i,
{
    if i == 1 {
        assert(s.take(1).len() == 1);
        assert(s.take(1)[0] == s[0]);
        assert(s.take(1).drop_first() =~= Seq::<PolygonRings>::empty());
        assert(polys_ops(Seq::<PolygonRings>::empty(), v, w, h) == Seq::<DrawOp>::empty());
        assert(polys_ops(s.take(1), v, w, h) == polygon_ops(s.take(1)[0], v, w, h) + polys_ops(
            s.take(1).drop_first(),
            v,
            w,
            h,
        ));
        assert(polys_ops(s.take(1), v, w, h) =~= polygon_ops(s[0], v, w, h));
        assert(s.take(0) =~= Seq::<PolygonRings>::empty());
        assert(polys_ops(s.take(0), v, w, h) + polygon_ops(s[0], v, w, h) =~= polygon_ops(
            s[0],
            v,
            w,
            h,
        ));
    } else {
        let t = s.drop_first();
        lemma_polys_ops_take_snoc(t, v, w, h, i - 1);
        assert(s.take(i).drop_first() =~= t.take(i - 1));
        assert(s.take(i - 1).drop_first() =~= t.take(i - 2));
        assert(s.take(i)[0] == s[0]);
        assert(s.take(i - 1)[0] == s[0]);
        assert(t[i - 2] == s[i - 1]);
        assert(polys_ops(s.take(i), v, w, h) == polygon_ops(s[0], v, w, h) + polys_ops(
            t.take(i - 1),
            v,
            w,
            h,
        ));
        assert(polys_ops(s.take(i - 1), v, w, h) == polygon_ops(s[0], v, w, h) + polys_ops(
            t.take(i - 2),
            v,
            w,
            h,
        ));
        assert(polygon_ops(s[0], v, w, h) + (polys_ops(t.take(i - 2), v, w, h) + polygon_ops(
            s[i - 1],
            v,
            w,
            h,
        )) =~= (polygon_ops(s[0], v, w, h) + polys_ops(t.take(i - 2), v, w, h)) + polygon_ops(
            s[i - 1],
            v,
            w,
            h,
        ));
    }
}

pub proof fn lemma_collection_ops_take_snoc(s: Seq<Geometry>, v: Viewport, w: u32, h: u32, i: int)
    requires
        0 < i <= s.len(),
    ensures
        collection_ops(s.take(i), v, w, h) == collection_ops(s.take(i - 1), v, w, h) + ops_of(
            s[i - 1],
            v,
            w,
            h,
        ),
    decreases i,
{
    if i == 1 {
        assert(s.take(1).len() == 1);
        assert(s.take(1)[0] == s[0]);
        assert(s.take(1).drop_first() =~= Seq::<Geometry>::empty());
        assert(collection_ops(Seq::<Geometry>::empty(), v, w, h) == Seq::<DrawOp>::empty());
        assert(collection_ops(s.take(1), v, w, h) == ops_of(s.take(1)[0], v, w, h)
            + collection_ops(s.take(1).drop_first(), v, w, h));
        assert(collection_ops(s.take(1), v, w, h) =~= ops_of(s[0], v, w, h));
        assert(s.take(0) =~= Seq::<Geometry>::empty());
        assert(collection_ops(s.take(0), v, w, h) + ops_of(s[0], v, w, h) =~= ops_of(
            s[0],
            v,
            w,
            h,
        ));
    } else {
        let t = s.drop_first();
        lemma_collection_ops_take_snoc(t, v, w, h, i - 1);
        assert(s.take(i).drop_first() =~= t.take(i - 1));
        assert(s.take(i - 1).drop_first() =~= t.take(i - 2));
        assert(s.take(i)[0] == s[0]);
        assert(s.take(i - 1)[0] == s[0]);
        assert(t[i - 2] == s[i - 1]);
        assert(collection_ops(s.take(i), v, w, h) == ops_of(s[0], v, w, h) + collection_ops(
            t.take(i - 1),
            v,
            w,
            h,
        ));
        assert(collection_ops(s.take(i - 1), v, w, h) == ops_of(s[0], v, w, h) + collection_ops(
            t.take(i - 2),
            v,
            w,
            h,
        ));
        assert(ops_of(s[0], v, w, h) + (collection_ops(t.take(i - 2), v, w, h) + ops_of(
            s[i - 1],
            v,
            w,
            h,
        )) =~= (ops_of(s[0], v, w, h) + collection_ops(t.take(i - 2), v, w, h)) + ops_of(
            s[i - 1],
            v,
            w,
            h,
        ));
    }
}

pub proof fn lemma_linestring_ops_take_snoc(s: Seq<GeographicPoint>, v: Viewport, w: u32, h: u32, i: int)
    requires
        2 <= i <= s.len(),
    ensures
        linestring_ops(s.take(i), v, w, h) == linestring_ops(s.take(i - 1), v, w, h) + segment_ops(
            s[i - 2],
            s[i - 1],
            v,
            w,
            h,
        ),
    decreases i,
{
    if i == 2 {
        assert(s.take(2).len() == 2);
        assert(s.take(2)[0] == s[0]);
        assert(s.take(2)[1] == s[1]);
        assert(s.take(2).drop_first().len() == 1);
        assert(linestring_ops(s.take(2).drop_first(), v, w, h) == Seq::<DrawOp>::empty());
        assert(linestring_ops(s.take(2), v, w, h) == segment_ops(
            s.take(2)[0],
            s.take(2)[1],
            v,
            w,
            h,
        ) + linestring_ops(s.take(2).drop_first(), v, w, h));
        assert(linestring_ops(s.take(2), v, w, h) =~= segment_ops(s[0], s[1], v, w, h));
        assert(s.take(1).len() == 1);
        assert(linestring_ops(s.take(1), v, w, h) == Seq::<DrawOp>::empty());
        assert(linestring_ops(s.take(1), v, w, h) + segment_ops(s[0], s[1], v, w, h)
            =~= segment_ops(s[0], s[1], v, w, h));
    } else {
        let t = s.drop_first();
        lemma_linestring_ops_take_snoc(t, v, w, h, i - 1);
        assert(s.take(i).drop_first() =~= t.take(i - 1));
        assert(s.take(i - 1).drop_first() =~= t.take(i - 2));
        assert(s.take(i)[0] == s[0]);
        assert(s.take(i)[1] == s[1]);
        assert(s.take(i - 1)[0] == s[0]);
        assert(s.take(i - 1)[1] == s[1]);
        assert(t[i - 3] == s[i - 2]);
        assert(t[i - 2] == s[i - 1]);
        assert(linestring_ops(s.take(i), v, w, h) == segment_ops(s[0], s[1], v, w, h)
            + linestring_ops(t.take(i - 1), v, w, h));
        assert(linestring_ops(s.take(i - 1), v, w, h) == segment_ops(s[0], s[1], v, w, h)
            + linestring_ops(t.take(i - 2), v, w, h));
        assert(segment_ops(s[0], s[1], v, w, h) + (linestring_ops(t.take(i - 2), v, w, h)
            + segment_ops(s[i - 2], s[i - 1], v, w, h)) =~= (segment_ops(s[0], s[1], v, w, h)
            + linestring_ops(t.take(i - 2), v, w, h)) + segment_ops(s[i - 2], s[i - 1], v, w, h));
    }
}

/// Wrapping geometries in one extra level of `GeometryCollection` nesting
/// changes nothing about what is drawn: the two collections reduce to the
/// same sequence of drawing operations (so, drawn onto equal canvases, they
/// produce identical canvases).
pub proof fn lemma_nested_collection_ops(
    outer: Vec<Geometry>,
    inner: Vec<Geometry>,
    v: Viewport,
    w: u32,
    h: u32,
)
    requires
        outer@ == seq![Geometry::GeometryCollection(inner)],
    ensures
        ops_of(Geometry::GeometryCollection(outer), v, w, h) == ops_of(
            Geometry::GeometryCollection(inner),
            v,
            w,
            h,
        ),
{
    assert(outer@.len() == 1);
    assert(outer@[0] == Geometry::GeometryCollection(inner));
    assert(outer@.drop_first() =~= Seq::<Geometry>::empty());
    assert(collection_ops(Seq::<Geometry>::empty(), v, w, h) == Seq::<DrawOp>::empty());
    assert(collection_ops(outer@, v, w, h) == ops_of(outer@[0], v, w, h) + collection_ops(
        outer@.drop_first(),
        v,
        w,
        h,
    ));
    assert(ops_of(outer@[0], v, w, h) + Seq::<DrawOp>::empty() =~= ops_of(outer@[0], v, w, h));
}

/// A line string of a single point draws nothing, and a line string of
/// exactly two points draws exactly what the equivalent two-point line
/// geometry draws.
pub proof fn lemma_linestring_singleton_and_pair(ps: Vec<GeographicPoint>, v: Viewport, w: u32, h: u32)
    ensures
        ps@.len() < 2 ==> ops_of(Geometry::LineString(ps), v, w, h) == Seq::<DrawOp>::empty(),
        ps@.len() == 2 ==> ops_of(Geometry::LineString(ps), v, w, h) == ops_of(
            Geometry::Line(ps@[0], ps@[1]),
            v,
            w,
            h,
        ),
{
    if ps@.len() == 2 {
        assert(ps@.drop_first().len() == 1);
        assert(linestring_ops(ps@.drop_first(), v, w, h) == Seq::<DrawOp>::empty());
        assert(linestring_ops(ps@, v, w, h) == segment_ops(ps@[0], ps@[1], v, w, h)
            + linestring_ops(ps@.drop_first(), v, w, h));
        assert(segment_ops(ps@[0], ps@[1], v, w, h) + Seq::<DrawOp>::empty() =~= segment_ops(
            ps@[0],
            ps@[1],
            v,
            w,
            h,
        ));
    }
}

} // verus!
