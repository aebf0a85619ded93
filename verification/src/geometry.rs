//! The geometry data model: a tagged union over point, line, polygon and
//! collection variants, recursively nested through `GeometryCollection`.
use vstd::prelude::*;

verus! {

/// A geographic position. Each component carries the IEEE-754 bit pattern of
/// a double; `x` is the longitude-like axis, `y` the latitude-like axis.
#[derive(Clone, Copy, PartialEq, Eq, Structural, Debug)]
pub struct GeographicPoint {
    pub x: u64,
    pub y: u64,
}

/// A polygon: an exterior ring plus interior rings (holes). Only the
/// exterior ring is rasterized; holes are kept in the data model but are an
/// explicit scope limitation of the renderer.
pub struct PolygonRings {
    pub exterior: Vec<GeographicPoint>,
    pub interiors: Vec<Vec<GeographicPoint>>,
}

/// The closed set of geometry variants the rasterizer dispatches over.
pub enum Geometry {
    Point(GeographicPoint),
    Line(GeographicPoint, GeographicPoint),
    LineString(Vec<GeographicPoint>),
    Polygon(PolygonRings),
    MultiPoint(Vec<GeographicPoint>),
    MultiLineString(Vec<Vec<GeographicPoint>>),
    MultiPolygon(Vec<PolygonRings>),
    GeometryCollection(Vec<Geometry>),
    Rect(GeographicPoint, GeographicPoint),
    Triangle(GeographicPoint, GeographicPoint, GeographicPoint),
}

/// Every coordinate of a sequence of rings, in order.
pub open spec fn rings_coords(s: Seq<Vec<GeographicPoint>>) -> Seq<GeographicPoint>
    decreases s.len(),
{
    if s.len() == 0 {
        Seq::empty()
    } else {
        s[0]@ + rings_coords(s.drop_first())
    }
}

pub open spec fn polygon_coords(p: PolygonRings) -> Seq<GeographicPoint> {
    p.exterior@ + rings_coords(p.interiors@)
}

/// Every coordinate of a sequence of polygons, in order.
pub open spec fn polys_coords(s: Seq<PolygonRings>) -> Seq<GeographicPoint>
    decreases s.len(),
{
    if s.len() == 0 {
        Seq::empty()
    } else {
        polygon_coords(s[0]) + polys_coords(s.drop_first())
    }
}

/// Every coordinate that occurs in the geometry, in traversal order.
pub open spec fn coords_of(g: Geometry) -> Seq<GeographicPoint>
    decreases g, 0int,
{
    match g {
        Geometry::Point(p) => seq![p],
        Geometry::Line(a, b) => seq![a, b],
        Geometry::LineString(ps) => ps@,
        Geometry::Polygon(p) => polygon_coords(p),
        Geometry::MultiPoint(ps) => ps@,
        Geometry::MultiLineString(ls) => rings_coords(ls@),
        Geometry::MultiPolygon(ps) => polys_coords(ps@),
        Geometry::GeometryCollection(gs) => collection_coords(gs@),
        Geometry::Rect(mn, mx) => seq![mn, mx],
        Geometry::Triangle(a, b, c) => seq![a, b, c],
    }
}

/// Every coordinate of every geometry in the sequence, in order.
pub open spec fn collection_coords(s: Seq<Geometry>) -> Seq<GeographicPoint>
    decreases s, s.len(),
{
    if s.len() == 0 {
        Seq::empty()
    } else {
        coords_of(s[0]) + collection_coords(s.drop_first())
    }
}

pub proof fn lemma_rings_coords_take_snoc(s: Seq<Vec<GeographicPoint>>, i: int)
    requires
        0 < i <= s.len(),
    ensures
        rings_coords(s.take(i)) == rings_coords(s.take(i - 1)) + s[i - 1]@,
    decreases i,
{
    if i == 1 {
        assert(s.take(1).len() == 1);
        assert(s.take(1)[0] == s[0]);
        assert(s.take(1).drop_first() =~= Seq::<Vec<GeographicPoint>>::empty());
        assert(rings_coords(Seq::<Vec<GeographicPoint>>::empty())
            == Seq::<GeographicPoint>::empty());
        assert(rings_coords(s.take(1)) == s.take(1)[0]@ + rings_coords(s.take(1).drop_first()));
        assert(rings_coords(s.take(1)) =~= s[0]@);
        assert(s.take(0) =~= Seq::<Vec<GeographicPoint>>::empty());
        assert(rings_coords(s.take(0)) + s[0]@ =~= s[0]@);
    } else {
        let t = s.drop_first();
        lemma_rings_coords_take_snoc(t, i - 1);
        assert(s.take(i).drop_first() =~= t.take(i - 1));
        assert(s.take(i - 1).drop_first() =~= t.take(i - 2));
        assert(s.take(i)[0] == s[0]);
        assert(s.take(i - 1)[0] == s[0]);
        assert(t[i - 2] == s[i - 1]);
        assert(rings_coords(s.take(i)) == s[0]@ + rings_coords(t.take(i - 1)));
        assert(rings_coords(s.take(i - 1)) == s[0]@ + rings_coords(t.take(i - 2)));
        assert(s[0]@ + (rings_coords(t.take(i - 2)) + s[i - 1]@) =~= (s[0]@ + rings_coords(
            t.take(i - 2),
        )) + s[i - 1]@);
    }
}

pub proof fn lemma_polys_coords_take_snoc(s: Seq<PolygonRings>, i: int)
    requires
        0 < i <= s.len(),
    ensures
        polys_coords(s.take(i)) == polys_coords(s.take(i - 1)) + polygon_coords(s[i - 1]),
    decreases i,
{
    if i == 1 {
        assert(s.take(1).len() == 1);
        assert(s.take(1)[0] == s[0]);
        assert(s.take(1).drop_first() =~= Seq::<PolygonRings>::empty());
        assert(polys_coords(Seq::<PolygonRings>::empty()) == Seq::<GeographicPoint>::empty());
        assert(polys_coords(s.take(1)) == polygon_coords(s.take(1)[0]) + polys_coords(
            s.take(1).drop_first(),
        ));
        assert(polys_coords(s.take(1)) =~= polygon_coords(s[0]));
        assert(s.take(0) =~= Seq::<PolygonRings>::empty());
        assert(polys_coords(s.take(0)) + polygon_coords(s[0]) =~= polygon_coords(s[0]));
    } else {
        let t = s.drop_first();
        lemma_polys_coords_take_snoc(t, i - 1);
        assert(s.take(i).drop_first() =~= t.take(i - 1));
        assert(s.take(i - 1).drop_first() =~= t.take(i - 2));
        assert(s.take(i)[0] == s[0]);
        assert(s.take(i - 1)[0] == s[0]);
        assert(t[i - 2] == s[i - 1]);
        assert(polys_coords(s.take(i)) == polygon_coords(s[0]) + polys_coords(t.take(i - 1)));
        assert(polys_coords(s.take(i - 1)) == polygon_coords(s[0]) + polys_coords(t.take(i - 2)));
        assert(polygon_coords(s[0]) + (polys_coords(t.take(i - 2)) + polygon_coords(s[i - 1])) =~= (
        polygon_coords(s[0]) + polys_coords(t.take(i - 2))) + polygon_coords(s[i - 1]));
    }
}

pub proof fn lemma_collection_coords_take_snoc(s: Seq<Geometry>, i: int)
    requires
        0 < i <= s.len(),
    ensures
        collection_coords(s.take(i)) == collection_coords(s.take(i - 1)) + coords_of(s[i - 1]),
    decreases i,
{
    if i == 1 {
        assert(s.take(1).len() == 1);
        assert(s.take(1)[0] == s[0]);
        assert(s.take(1).drop_first() =~= Seq::<Geometry>::empty());
        assert(collection_coords(Seq::<Geometry>::empty()) == Seq::<GeographicPoint>::empty());
        assert(collection_coords(s.take(1)) == coords_of(s.take(1)[0]) + collection_coords(
            s.take(1).drop_first(),
        ));
        assert(collection_coords(s.take(1)) =~= coords_of(s[0]));
        assert(s.take(0) =~= Seq::<Geometry>::empty());
        assert(collection_coords(s.take(0)) + coords_of(s[0]) =~= coords_of(s[0]));
    } else {
        let t = s.drop_first();
        lemma_collection_coords_take_snoc(t, i - 1);
        assert(s.take(i).drop_first() =~= t.take(i - 1));
        assert(s.take(i - 1).drop_first() =~= t.take(i - 2));
        assert(s.take(i)[0] == s[0]);
        assert(s.take(i - 1)[0] == s[0]);
        assert(t[i - 2] == s[i - 1]);
        assert(collection_coords(s.take(i)) == coords_of(s[0]) + collection_coords(t.take(i - 1)));
        assert(collection_coords(s.take(i - 1)) == coords_of(s[0]) + collection_coords(
            t.take(i - 2),
        ));
        assert(coords_of(s[0]) + (collection_coords(t.take(i - 2)) + coords_of(s[i - 1])) =~= (
        coords_of(s[0]) + collection_coords(t.take(i - 2))) + coords_of(s[i - 1]));
    }
}

/// A size measure for terminating executable recursion over geometries.
pub open spec fn geom_size(g: Geometry) -> nat
    decreases g, 0int,
{
    match g {
        Geometry::GeometryCollection(gs) => 1 + collection_size(gs@),
        _ => 1,
    }
}

pub open spec fn collection_size(s: Seq<Geometry>) -> nat
    decreases s, s.len(),
{
    if s.len() == 0 {
        0
    } else {
        geom_size(s[0]) + collection_size(s.drop_first())
    }
}

pub proof fn lemma_collection_size_elem(s: Seq<Geometry>, i: int)
    requires
        0 <= i < s.len(),
    ensures
        geom_size(s[i]) <= collection_size(s),
    decreases s.len(),
{
    if i == 0 {
    } else {
        lemma_collection_size_elem(s.drop_first(), i - 1);
    }
}

/// Appends every element of `ps` to `out`.
pub fn push_all(out: &mut Vec<GeographicPoint>, ps: &Vec<GeographicPoint>)
    ensures
        final(out)@ == old(out)@ + ps@,
{
    let mut i: usize = 0;
    while i < ps.len()
        invariant
            0 <= i <= ps.len(),
            out@ == old(out)@ + ps@.take(i as int),
        decreases ps.len() - i,
    {
        out.push(ps[i]);
        assert(ps@.take(i + 1) =~= ps@.take(i as int).push(ps@[i as int]));
        assert(old(out)@ + ps@.take(i + 1) =~= (old(out)@ + ps@.take(i as int)).push(
            ps@[i as int],
        ));
        i = i + 1;
    }
    assert(ps@.take(ps@.len() as int) =~= ps@);
}

/// Appends the coordinates of every ring to `out`.
pub fn push_all_rings(out: &mut Vec<GeographicPoint>, rings: &Vec<Vec<GeographicPoint>>)
    ensures
        final(out)@ == old(out)@ + rings_coords(rings@),
{
    let mut i: usize = 0;
    while i < rings.len()
        invariant
            0 <= i <= rings.len(),
            out@ == old(out)@ + rings_coords(rings@.take(i as int)),
        decreases rings.len() - i,
    {
        push_all(out, &rings[i]);
        proof {
            lemma_rings_coords_take_snoc(rings@, i + 1);
            assert((old(out)@ + rings_coords(rings@.take(i as int))) + rings@[i as int]@ =~= old(
                out,
            )@ + (rings_coords(rings@.take(i as int)) + rings@[i as int]@));
        }
        i = i + 1;
    }
    assert(rings@.take(rings@.len() as int) =~= rings@);
}

/// Appends every coordinate of the geometry to `out`, in traversal order.
#[verifier::loop_isolation(false)]
pub fn collect_coords(g: &Geometry, out: &mut Vec<GeographicPoint>)
    ensures
        final(out)@ == old(out)@ + coords_of(*g),
    decreases geom_size(*g),
{
    match g {
        Geometry::Point(p) => {
            out.push(*p);
            assert(old(out)@ + coords_of(*g) =~= old(out)@.push(*p));
        },
        Geometry::Line(a, b) => {
            out.push(*a);
            out.push(*b);
            assert(old(out)@ + coords_of(*g) =~= old(out)@.push(*a).push(*b));
        },
        Geometry::LineString(ps) => {
            push_all(out, ps);
        },
        Geometry::Polygon(p) => {
            push_all(out, &p.exterior);
            push_all_rings(out, &p.interiors);
            assert((old(out)@ + p.exterior@) + rings_coords(p.interiors@) =~= old(out)@
                + polygon_coords(*p));
        },
        Geometry::MultiPoint(ps) => {
            push_all(out, ps);
        },
        Geometry::MultiLineString(ls) => {
            push_all_rings(out, ls);
        },
        Geometry::MultiPolygon(ps) => {
            let mut i: usize = 0;
            while i < ps.len()
                invariant
                    0 <= i <= ps.len(),
                    out@ == old(out)@ + polys_coords(ps@.take(i as int)),
                decreases ps.len() - i,
            {
                push_all(out, &ps[i].exterior);
                push_all_rings(out, &ps[i].interiors);
                proof {
                    lemma_polys_coords_take_snoc(ps@, i + 1);
                    assert(((old(out)@ + polys_coords(ps@.take(i as int)))
                        + ps@[i as int].exterior@) + rings_coords(ps@[i as int].interiors@) =~= old(
                        out,
                    )@ + (polys_coords(ps@.take(i as int)) + polygon_coords(ps@[i as int])));
                }
                i = i + 1;
            }
            assert(ps@.take(ps@.len() as int) =~= ps@);
        },
        Geometry::GeometryCollection(gs) => {
            let mut i: usize = 0;
            while i < gs.len()
                invariant
                    0 <= i <= gs.len(),
                    out@ == old(out)@ + collection_coords(gs@.take(i as int)),
                decreases gs.len() - i,
            {
                proof {
                    lemma_collection_size_elem(gs@, i as int);
                    assert(geom_size(*g) == 1 + collection_size(gs@));
                    assert(geom_size(gs@[i as int]) < geom_size(*g));
                }
                collect_coords(&gs[i], out);
                proof {
                    lemma_collection_coords_take_snoc(gs@, i + 1);
                    assert((old(out)@ + collection_coords(gs@.take(i as int))) + coords_of(
                        gs@[i as int],
                    ) =~= old(out)@ + (collection_coords(gs@.take(i as int)) + coords_of(
                        gs@[i as int],
                    )));
                }
                i = i + 1;
            }
            assert(gs@.take(gs@.len() as int) =~= gs@);
        },
        Geometry::Rect(mn, mx) => {
            out.push(*mn);
            out.push(*mx);
            assert(old(out)@ + coords_of(*g) =~= old(out)@.push(*mn).push(*mx));
        },
        Geometry::Triangle(a, b, c) => {
            out.push(*a);
            out.push(*b);
            out.push(*c);
            assert(old(out)@ + coords_of(*g) =~= old(out)@.push(*a).push(*b).push(*c));
        },
    }
}

} // verus!
