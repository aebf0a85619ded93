//! The raster canvas and the drawing routines. The pixel buffer and the two
//! drawing primitives come from the image and imageproc crates behind
//! trusted wrappers; everything dispatching onto them is verified against
//! the drawing-operation plan of the rasterizer.
use vstd::prelude::*;
use crate::geometry::{
    collection_size, geom_size, lemma_collection_size_elem, GeographicPoint, Geometry,
    PolygonRings,
};
use crate::project::{project_coordinate, spec_project, PixelCoordinate};
use crate::raster::{
    check_band, collection_ops, lemma_collection_ops_take_snoc,
    lemma_linestring_ops_take_snoc, lemma_multipoint_ops_take_snoc, lemma_polys_ops_take_snoc,
    lemma_rings_ops_take_snoc, linestring_ops, multipoint_ops, ops_of, point_ops, polygon_ops,
    polys_ops, rect_ring, rings_ops, segment_ops, triangle_ring, DrawOp, PIXEL_BOUND,
    POINT_RADIUS,
};
use crate::viewport::Viewport;

verus! {

/// A width x height grid of RGBA pixels, owned by the rendering routines
/// for the duration of one conversion.
#[verifier::external_body]
pub struct Canvas {
    img: image::RgbaImage,
}

/// The canvas's width in pixels.
pub uninterp spec fn canvas_width(c: Canvas) -> u32;

/// The canvas's height in pixels.
pub uninterp spec fn canvas_height(c: Canvas) -> u32;

/// The canvas contents in row-major order, each pixel's four channel bytes
/// packed big-endian (red in the highest byte, alpha in the lowest).
pub uninterp spec fn canvas_pixels(c: Canvas) -> Seq<u32>;

/// What drawing a filled circle leaves in a pixel buffer of the given
/// dimensions.
pub uninterp spec fn circle_effect(
    pixels: Seq<u32>,
    w: u32,
    h: u32,
    cx: i32,
    cy: i32,
    radius: i32,
    color: u32,
) -> Seq<u32>;

/// What drawing an anti-aliased line segment leaves in a pixel buffer of
/// the given dimensions.
pub uninterp spec fn segment_effect(
    pixels: Seq<u32>,
    w: u32,
    h: u32,
    x0: i32,
    y0: i32,
    x1: i32,
    y1: i32,
    color: u32,
) -> Seq<u32>;

/// The pixel whose four channel bytes all equal `b`.
pub open spec fn uniform_pixel(b: u8) -> u32 {
    ((b as int) * 0x0101_0101) as u32
}

pub open spec fn apply_op(pixels: Seq<u32>, w: u32, h: u32, op: DrawOp, color: u32) -> Seq<u32> {
    match op {
        DrawOp::Circle { center, radius } => circle_effect(
            pixels,
            w,
            h,
            center.x,
            center.y,
            radius,
            color,
        ),
        DrawOp::Segment { start, end } => segment_effect(
            pixels,
            w,
            h,
            start.x,
            start.y,
            end.x,
            end.y,
            color,
        ),
    }
}

/// The pixel buffer after performing the operations in order.
pub open spec fn apply_ops(pixels: Seq<u32>, w: u32, h: u32, ops: Seq<DrawOp>, color: u32) -> Seq<
    u32,
>
    decreases ops.len(),
{
    if ops.len() == 0 {
        pixels
    } else {
        apply_ops(apply_op(pixels, w, h, ops[0], color), w, h, ops.drop_first(), color)
    }
}

pub proof fn lemma_apply_ops_append(
    pixels: Seq<u32>,
    w: u32,
    h: u32,
    a: Seq<DrawOp>,
    b: Seq<DrawOp>,
    color: u32,
)
    ensures
        apply_ops(pixels, w, h, a + b, color) == apply_ops(
            apply_ops(pixels, w, h, a, color),
            w,
            h,
            b,
            color,
        ),
    decreases a.len(),
{
    if a.len() == 0 {
        assert(a + b =~= b);
        assert(apply_ops(pixels, w, h, a, color) == pixels);
    } else {
        assert((a + b)[0] == a[0]);
        assert((a + b).drop_first() =~= a.drop_first() + b);
        lemma_apply_ops_append(
            apply_op(pixels, w, h, a[0], color),
            w,
            h,
            a.drop_first(),
            b,
            color,
        );
    }
}

pub proof fn lemma_apply_ops_singleton(pixels: Seq<u32>, w: u32, h: u32, op: DrawOp, color: u32)
    ensures
        apply_ops(pixels, w, h, seq![op], color) == apply_op(pixels, w, h, op, color),
{
    assert(seq![op].len() == 1);
    assert(seq![op][0] == op);
    assert(seq![op].drop_first() =~= Seq::<DrawOp>::empty());
    assert(apply_ops(apply_op(pixels, w, h, op, color), w, h, Seq::<DrawOp>::empty(), color)
        == apply_op(pixels, w, h, op, color));
}

/// Drawing a collection nested one level deep leaves any pixel buffer
/// identical to drawing the flat collection: the two reduce to the same
/// drawing operations, so the folds of their effects coincide.
pub proof fn lemma_nested_collection_canvas(
    outer: Vec<Geometry>,
    inner: Vec<Geometry>,
    bbox: Viewport,
    w: u32,
    h: u32,
    pixels: Seq<u32>,
    color: u32,
)
    requires
        outer@ == seq![Geometry::GeometryCollection(inner)],
    ensures
        apply_ops(
            pixels,
            w,
            h,
            ops_of(Geometry::GeometryCollection(outer), bbox, w, h),
            color,
        ) == apply_ops(
            pixels,
            w,
            h,
            ops_of(Geometry::GeometryCollection(inner), bbox, w, h),
            color,
        ),
{
    crate::raster::lemma_nested_collection_ops(outer, inner, bbox, w, h);
}

impl Canvas {
    /// Relies on image::RgbaImage::new: a buffer of the given dimensions
    /// with every sample zero. The size precondition keeps out the
    /// documented panic on buffer-length overflow.
    #[verifier::external_body]
    pub fn new(width: u32, height: u32) -> (c: Canvas)
        requires
            4 * (width as int) * (height as int) <= usize::MAX as int,
        ensures
            canvas_width(c) == width,
            canvas_height(c) == height,
            canvas_pixels(c) == Seq::new((width as nat) * (height as nat), |i: int| 0u32),
    {
        Canvas { img: image::RgbaImage::new(width, height) }
    }

    /// Relies on slice::fill, reached through RgbaImage's DerefMut to the
    /// flat sample slice: every channel byte of every pixel becomes `value`.
    #[verifier::external_body]
    pub fn fill(&mut self, value: u8)
        ensures
            canvas_width(*final(self)) == canvas_width(*old(self)),
            canvas_height(*final(self)) == canvas_height(*old(self)),
            canvas_pixels(*final(self)) == Seq::new(
                canvas_pixels(*old(self)).len(),
                |i: int| uniform_pixel(value),
            ),
    {
        self.img.fill(value);
    }

    /// Relies on ImageBuffer::width.
    #[verifier::external_body]
    pub fn width(&self) -> (w: u32)
        ensures
            w == canvas_width(*self),
    {
        self.img.width()
    }

    /// Relies on ImageBuffer::height.
    #[verifier::external_body]
    pub fn height(&self) -> (h: u32)
        ensures
            h == canvas_height(*self),
    {
        self.img.height()
    }

    /// Relies on ImageBuffer::as_raw: the channel bytes in row-major RGBA
    /// order, four per pixel.
    #[verifier::external_body]
    pub fn to_bytes(&self) -> (v: Vec<u8>)
        ensures
            v@.len() == 4 * canvas_pixels(*self).len(),
            forall|i: int|
                0 <= i < canvas_pixels(*self).len() ==> {
                    &&& v@[4 * i] == ((#[trigger] canvas_pixels(*self)[i] >> 24) & 0xFF) as u8
                    &&& v@[4 * i + 1] == ((canvas_pixels(*self)[i] >> 16) & 0xFF) as u8
                    &&& v@[4 * i + 2] == ((canvas_pixels(*self)[i] >> 8) & 0xFF) as u8
                    &&& v@[4 * i + 3] == (canvas_pixels(*self)[i] & 0xFF) as u8
                },
    {
        self.img.as_raw().clone()
    }

    /// Relies on imageproc::drawing::draw_filled_circle_mut: a deterministic
    /// function of the buffer and the arguments, mutating pixels in place.
    /// The coordinate band keeps its i32 arithmetic from overflowing.
    #[verifier::external_body]
    fn draw_circle_raw(&mut self, cx: i32, cy: i32, radius: i32, color: u32)
        requires
            -PIXEL_BOUND <= cx <= PIXEL_BOUND,
            -PIXEL_BOUND <= cy <= PIXEL_BOUND,
            0 <= radius <= 16,
        ensures
            canvas_width(*final(self)) == canvas_width(*old(self)),
            canvas_height(*final(self)) == canvas_height(*old(self)),
            canvas_pixels(*final(self)) == circle_effect(
                canvas_pixels(*old(self)),
                canvas_width(*old(self)),
                canvas_height(*old(self)),
                cx,
                cy,
                radius,
                color,
            ),
    {
        imageproc::drawing::draw_filled_circle_mut(
            &mut self.img,
            (cx, cy),
            radius,
            image::Rgba(color.to_be_bytes()),
        );
    }

    /// Relies on imageproc::drawing::draw_antialiased_line_segment_mut with
    /// imageproc::pixelops::interpolate as the blend: a deterministic
    /// function of the buffer and the arguments, mutating pixels in place.
    /// The coordinate band keeps its i32 arithmetic from overflowing.
    #[verifier::external_body]
    fn draw_segment_raw(&mut self, x0: i32, y0: i32, x1: i32, y1: i32, color: u32)
        requires
            -PIXEL_BOUND <= x0 <= PIXEL_BOUND,
            -PIXEL_BOUND <= y0 <= PIXEL_BOUND,
            -PIXEL_BOUND <= x1 <= PIXEL_BOUND,
            -PIXEL_BOUND <= y1 <= PIXEL_BOUND,
        ensures
            canvas_width(*final(self)) == canvas_width(*old(self)),
            canvas_height(*final(self)) == canvas_height(*old(self)),
            canvas_pixels(*final(self)) == segment_effect(
                canvas_pixels(*old(self)),
                canvas_width(*old(self)),
                canvas_height(*old(self)),
                x0,
                y0,
                x1,
                y1,
                color,
            ),
    {
        imageproc::drawing::draw_antialiased_line_segment_mut(
            &mut self.img,
            (x0, y0),
            (x1, y1),
            image::Rgba(color.to_be_bytes()),
            &imageproc::pixelops::interpolate,
        );
    }
}

/// Projects the point and draws a filled circle of fixed radius at it.
pub fn draw_point(point: GeographicPoint, canvas: &mut Canvas, bbox: Viewport, color: u32)
    ensures
        canvas_width(*final(canvas)) == canvas_width(*old(canvas)),
        canvas_height(*final(canvas)) == canvas_height(*old(canvas)),
        canvas_pixels(*final(canvas)) == apply_ops(
            canvas_pixels(*old(canvas)),
            canvas_width(*old(canvas)),
            canvas_height(*old(canvas)),
            point_ops(point, bbox, canvas_width(*old(canvas)), canvas_height(*old(canvas))),
            color,
        ),
{
    let w = canvas.width();
    let h = canvas.height();
    let center = project_coordinate(point, bbox, w, h);
    if check_band(center) {
        canvas.draw_circle_raw(center.x, center.y, POINT_RADIUS, color);
        proof {
            let op = DrawOp::Circle { center: spec_project(point, bbox, w, h), radius: POINT_RADIUS };
            assert(point_ops(point, bbox, w, h) =~= seq![op]);
            lemma_apply_ops_singleton(canvas_pixels(*old(canvas)), w, h, op, color);
        }
    } else {
        assert(point_ops(point, bbox, w, h) =~= Seq::<DrawOp>::empty());
    }
}

/// Projects both endpoints and draws one anti-aliased segment between them.
pub fn draw_line(a: GeographicPoint, b: GeographicPoint, canvas: &mut Canvas, bbox: Viewport, color: u32)
    ensures
        canvas_width(*final(canvas)) == canvas_width(*old(canvas)),
        canvas_height(*final(canvas)) == canvas_height(*old(canvas)),
        canvas_pixels(*final(canvas)) == apply_ops(
            canvas_pixels(*old(canvas)),
            canvas_width(*old(canvas)),
            canvas_height(*old(canvas)),
            segment_ops(a, b, bbox, canvas_width(*old(canvas)), canvas_height(*old(canvas))),
            color,
        ),
{
    let w = canvas.width();
    let h = canvas.height();
    let start = project_coordinate(a, bbox, w, h);
    let end = project_coordinate(b, bbox, w, h);
    if check_band(start) && check_band(end) {
        canvas.draw_segment_raw(start.x, start.y, end.x, end.y, color);
        proof {
            let op = DrawOp::Segment {
                start: spec_project(a, bbox, w, h),
                end: spec_project(b, bbox, w, h),
            };
            assert(segment_ops(a, b, bbox, w, h) =~= seq![op]);
            lemma_apply_ops_singleton(canvas_pixels(*old(canvas)), w, h, op, color);
        }
    } else {
        assert(segment_ops(a, b, bbox, w, h) =~= Seq::<DrawOp>::empty());
    }
}

/// Projects each vertex in order and draws a segment between each
/// consecutive pair; fewer than two vertices draw nothing.
#[verifier::loop_isolation(false)]
pub fn draw_line_string(ls: &Vec<GeographicPoint>, canvas: &mut Canvas, bbox: Viewport, color: u32)
    ensures
        canvas_width(*final(canvas)) == canvas_width(*old(canvas)),
        canvas_height(*final(canvas)) == canvas_height(*old(canvas)),
        canvas_pixels(*final(canvas)) == apply_ops(
            canvas_pixels(*old(canvas)),
            canvas_width(*old(canvas)),
            canvas_height(*old(canvas)),
            linestring_ops(ls@, bbox, canvas_width(*old(canvas)), canvas_height(*old(canvas))),
            color,
        ),
{
    let w = canvas.width();
    let h = canvas.height();
    let mut line_start: Option<PixelCoordinate> = None;
    let mut i: usize = 0;
    while i < ls.len()
        invariant
            0 <= i <= ls.len(),
            i == 0 ==> line_start is None,
            i >= 1 ==> line_start == Some(spec_project(ls@[i - 1], bbox, w, h)),
            canvas_width(*canvas) == w,
            canvas_height(*canvas) == h,
            canvas_pixels(*canvas) == apply_ops(
                canvas_pixels(*old(canvas)),
                w,
                h,
                linestring_ops(ls@.take(i as int), bbox, w, h),
                color,
            ),
        decreases ls.len() - i,
    {
        let coor = project_coordinate(ls[i], bbox, w, h);
        proof {
            if i == 0 {
                assert(ls@.take(1).len() == 1);
                assert(linestring_ops(ls@.take(1), bbox, w, h) == Seq::<DrawOp>::empty());
                assert(linestring_ops(ls@.take(0), bbox, w, h) == Seq::<DrawOp>::empty());
            } else {
                lemma_linestring_ops_take_snoc(ls@, bbox, w, h, i + 1);
                lemma_apply_ops_append(
                    canvas_pixels(*old(canvas)),
                    w,
                    h,
                    linestring_ops(ls@.take(i as int), bbox, w, h),
                    segment_ops(ls@[i - 1], ls@[i as int], bbox, w, h),
                    color,
                );
            }
        }
        match line_start {
            Some(start) => {
                if check_band(start) && check_band(coor) {
                    canvas.draw_segment_raw(start.x, start.y, coor.x, coor.y, color);
                    proof {
                        let op = DrawOp::Segment {
                            start: spec_project(ls@[i - 1], bbox, w, h),
                            end: spec_project(ls@[i as int], bbox, w, h),
                        };
                        assert(segment_ops(ls@[i - 1], ls@[i as int], bbox, w, h) =~= seq![op]);
                        lemma_apply_ops_singleton(
                            apply_ops(
                                canvas_pixels(*old(canvas)),
                                w,
                                h,
                                linestring_ops(ls@.take(i as int), bbox, w, h),
                                color,
                            ),
                            w,
                            h,
                            op,
                            color,
                        );
                    }
                } else {
                    assert(segment_ops(ls@[i - 1], ls@[i as int], bbox, w, h)
                        =~= Seq::<DrawOp>::empty());
                }
            },
            _ => {},
        }
        line_start = Some(coor);
        i = i + 1;
    }
    proof {
        assert(ls@.take(ls@.len() as int) =~= ls@);
    }
}

/// Draws the edges of the polygon's exterior ring; holes are not rendered.
pub fn draw_polygon(polygon: &PolygonRings, canvas: &mut Canvas, bbox: Viewport, color: u32)
    ensures
        canvas_width(*final(canvas)) == canvas_width(*old(canvas)),
        canvas_height(*final(canvas)) == canvas_height(*old(canvas)),
        canvas_pixels(*final(canvas)) == apply_ops(
            canvas_pixels(*old(canvas)),
            canvas_width(*old(canvas)),
            canvas_height(*old(canvas)),
            polygon_ops(*polygon, bbox, canvas_width(*old(canvas)), canvas_height(*old(canvas))),
            color,
        ),
{
    draw_line_string(&polygon.exterior, canvas, bbox, color);
}

/// Recursively dispatches a geometry to the drawing routine of its variant,
/// decomposing collections and multi-geometries in order and normalizing
/// rectangles and triangles to their polygon rings.
#[verifier::loop_isolation(false)]
pub fn draw_geometry(geometry: &Geometry, canvas: &mut Canvas, bbox: Viewport, color: u32)
    ensures
        canvas_width(*final(canvas)) == canvas_width(*old(canvas)),
        canvas_height(*final(canvas)) == canvas_height(*old(canvas)),
        canvas_pixels(*final(canvas)) == apply_ops(
            canvas_pixels(*old(canvas)),
            canvas_width(*old(canvas)),
            canvas_height(*old(canvas)),
            ops_of(*geometry, bbox, canvas_width(*old(canvas)), canvas_height(*old(canvas))),
            color,
        ),
    decreases geom_size(*geometry),
{
    let ghost w = canvas_width(*canvas);
    let ghost h = canvas_height(*canvas);
    match geometry {
        Geometry::Point(p) => {
            draw_point(*p, canvas, bbox, color);
        },
        Geometry::Line(a, b) => {
            draw_line(*a, *b, canvas, bbox, color);
        },
        Geometry::LineString(ls) => {
            draw_line_string(ls, canvas, bbox, color);
        },
        Geometry::Polygon(p) => {
            draw_polygon(p, canvas, bbox, color);
        },
        Geometry::MultiPoint(ps) => {
            let mut i: usize = 0;
            while i < ps.len()
                invariant
                    0 <= i <= ps.len(),
                    canvas_width(*canvas) == w,
                    canvas_height(*canvas) == h,
                    canvas_pixels(*canvas) == apply_ops(
                        canvas_pixels(*old(canvas)),
                        w,
                        h,
                        multipoint_ops(ps@.take(i as int), bbox, w, h),
                        color,
                    ),
                decreases ps.len() - i,
            {
                draw_point(ps[i], canvas, bbox, color);
                proof {
                    lemma_multipoint_ops_take_snoc(ps@, bbox, w, h, i + 1);
                    lemma_apply_ops_append(
                        canvas_pixels(*old(canvas)),
                        w,
                        h,
                        multipoint_ops(ps@.take(i as int), bbox, w, h),
                        point_ops(ps@[i as int], bbox, w, h),
                        color,
                    );
                }
                i = i + 1;
            }
            proof {
                assert(ps@.take(ps@.len() as int) =~= ps@);
            }
        },
        Geometry::MultiLineString(mls) => {
            let mut i: usize = 0;
            while i < mls.len()
                invariant
                    0 <= i <= mls.len(),
                    canvas_width(*canvas) == w,
                    canvas_height(*canvas) == h,
                    canvas_pixels(*canvas) == apply_ops(
                        canvas_pixels(*old(canvas)),
                        w,
                        h,
                        rings_ops(mls@.take(i as int), bbox, w, h),
                        color,
                    ),
                decreases mls.len() - i,
            {
                draw_line_string(&mls[i], canvas, bbox, color);
                proof {
                    lemma_rings_ops_take_snoc(mls@, bbox, w, h, i + 1);
                    lemma_apply_ops_append(
                        canvas_pixels(*old(canvas)),
                        w,
                        h,
                        rings_ops(mls@.take(i as int), bbox, w, h),
                        linestring_ops(mls@[i as int]@, bbox, w, h),
                        color,
                    );
                }
                i = i + 1;
            }
            proof {
                assert(mls@.take(mls@.len() as int) =~= mls@);
            }
        },
        Geometry::MultiPolygon(multi_poly) => {
            let mut i: usize = 0;
            while i < multi_poly.len()
                invariant
                    0 <= i <= multi_poly.len(),
                    canvas_width(*canvas) == w,
                    canvas_height(*canvas) == h,
                    canvas_pixels(*canvas) == apply_ops(
                        canvas_pixels(*old(canvas)),
                        w,
                        h,
                        polys_ops(multi_poly@.take(i as int), bbox, w, h),
                        color,
                    ),
                decreases multi_poly.len() - i,
            {
                draw_polygon(&multi_poly[i], canvas, bbox, color);
                proof {
                    lemma_polys_ops_take_snoc(multi_poly@, bbox, w, h, i + 1);
                    lemma_apply_ops_append(
                        canvas_pixels(*old(canvas)),
                        w,
                        h,
                        polys_ops(multi_poly@.take(i as int), bbox, w, h),
                        polygon_ops(multi_poly@[i as int], bbox, w, h),
                        color,
                    );
                }
                i = i + 1;
            }
            proof {
                assert(multi_poly@.take(multi_poly@.len() as int) =~= multi_poly@);
            }
        },
        Geometry::GeometryCollection(geos) => {
            let mut i: usize = 0;
            while i < geos.len()
                invariant
                    0 <= i <= geos.len(),
                    canvas_width(*canvas) == w,
                    canvas_height(*canvas) == h,
                    canvas_pixels(*canvas) == apply_ops(
                        canvas_pixels(*old(canvas)),
                        w,
                        h,
                        collection_ops(geos@.take(i as int), bbox, w, h),
                        color,
                    ),
                decreases geos.len() - i,
            {
                proof {
                    lemma_collection_size_elem(geos@, i as int);
                    assert(geom_size(*geometry) == 1 + collection_size(geos@));
                    assert(geom_size(geos@[i as int]) < geom_size(*geometry));
                }
                draw_geometry(&geos[i], canvas, bbox, color);
                proof {
                    lemma_collection_ops_take_snoc(geos@, bbox, w, h, i + 1);
                    lemma_apply_ops_append(
                        canvas_pixels(*old(canvas)),
                        w,
                        h,
                        collection_ops(geos@.take(i as int), bbox, w, h),
                        ops_of(geos@[i as int], bbox, w, h),
                        color,
                    );
                }
                i = i + 1;
            }
            proof {
                assert(geos@.take(geos@.len() as int) =~= geos@);
            }
        },
        Geometry::Rect(mn, mx) => {
            let mut ring: Vec<GeographicPoint> = Vec::new();
            ring.push(GeographicPoint { x: mx.x, y: mn.y });
            ring.push(GeographicPoint { x: mx.x, y: mx.y });
            ring.push(GeographicPoint { x: mn.x, y: mx.y });
            ring.push(GeographicPoint { x: mn.x, y: mn.y });
            ring.push(GeographicPoint { x: mx.x, y: mn.y });
            assert(ring@ =~= rect_ring(*mn, *mx));
            draw_line_string(&ring, canvas, bbox, color);
        },
        Geometry::Triangle(a, b, c) => {
            let mut ring: Vec<GeographicPoint> = Vec::new();
            ring.push(*a);
            ring.push(*b);
            ring.push(*c);
            ring.push(*a);
            assert(ring@ =~= triangle_ring(*a, *b, *c));
            draw_line_string(&ring, canvas, bbox, color);
        },
    }
}

/// Draws every geometry of the collection onto the canvas, in order.
#[verifier::loop_isolation(false)]
pub fn render_collection(gs: &Vec<Geometry>, canvas: &mut Canvas, bbox: Viewport, color: u32)
    ensures
        canvas_width(*final(canvas)) == canvas_width(*old(canvas)),
        canvas_height(*final(canvas)) == canvas_height(*old(canvas)),
        canvas_pixels(*final(canvas)) == apply_ops(
            canvas_pixels(*old(canvas)),
            canvas_width(*old(canvas)),
            canvas_height(*old(canvas)),
            collection_ops(gs@, bbox, canvas_width(*old(canvas)), canvas_height(*old(canvas))),
            color,
        ),
{
    let ghost w = canvas_width(*canvas);
    let ghost h = canvas_height(*canvas);
    let mut i: usize = 0;
    while i < gs.len()
        invariant
            0 <= i <= gs.len(),
            canvas_width(*canvas) == w,
            canvas_height(*canvas) == h,
            canvas_pixels(*canvas) == apply_ops(
                canvas_pixels(*old(canvas)),
                w,
                h,
                collection_ops(gs@.take(i as int), bbox, w, h),
                color,
            ),
        decreases gs.len() - i,
    {
        draw_geometry(&gs[i], canvas, bbox, color);
        proof {
            lemma_collection_ops_take_snoc(gs@, bbox, w, h, i + 1);
            lemma_apply_ops_append(
                canvas_pixels(*old(canvas)),
                w,
                h,
                collection_ops(gs@.take(i as int), bbox, w, h),
                ops_of(gs@[i as int], bbox, w, h),
                color,
            );
        }
        i = i + 1;
    }
    proof {
        assert(gs@.take(gs@.len() as int) =~= gs@);
    }
}

} // verus!
