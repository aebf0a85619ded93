//! Viewport resolution: either the fixed whole-world rectangle, or the
//! smallest axis-aligned rectangle containing every coordinate of the
//! dataset, together with the derived output image height.
use vstd::prelude::*;
use crate::float_bits::{
    bits_to_u32, div_bits, f64_bits_canon, f64_bits_is_nan, f64_bits_is_zero, f64_bits_lt,
    f64_div, f64_from_u32, f64_round, f64_sub, f64_to_u32, is_zero_bits, lemma_canon_class,
    lt_bits, round_bits, sub_bits, u32_to_bits,
};
use crate::geometry::{
    collect_coords, collection_coords, lemma_collection_coords_take_snoc, GeographicPoint,
    Geometry,
};

verus! {

/// The geographic rectangle mapped onto the full canvas.
/// Invariant of well-formed data: `max` is coordinate-wise not below `min`;
/// a degenerate rectangle is reported by the resolver, not silently fixed.
#[derive(Clone, Copy, PartialEq, Eq, Structural, Debug)]
pub struct Viewport {
    pub min: GeographicPoint,
    pub max: GeographicPoint,
}

/// The failures the resolver can surface.
#[derive(Clone, Copy, PartialEq, Eq, Structural, Debug)]
pub enum ViewportError {
    /// Fit-to-data was requested but the dataset holds no coordinates.
    EmptyGeometry,
    /// The viewport has zero width or zero height, so the projection's scale
    /// factor would be infinite or undefined.
    DegenerateViewport,
}

/// IEEE-754 bits of -180.0.
pub const WORLD_MIN_X_BITS: u64 = 0xC066_8000_0000_0000;

/// IEEE-754 bits of -90.0.
pub const WORLD_MIN_Y_BITS: u64 = 0xC056_8000_0000_0000;

/// IEEE-754 bits of 180.0.
pub const WORLD_MAX_X_BITS: u64 = 0x4066_8000_0000_0000;

/// IEEE-754 bits of 90.0.
pub const WORLD_MAX_Y_BITS: u64 = 0x4056_8000_0000_0000;

/// The fixed whole-world extent: x in [-180, 180], y in [-90, 90].
pub open spec fn world_viewport() -> Viewport {
    Viewport {
        min: GeographicPoint { x: WORLD_MIN_X_BITS, y: WORLD_MIN_Y_BITS },
        max: GeographicPoint { x: WORLD_MAX_X_BITS, y: WORLD_MAX_Y_BITS },
    }
}

/// Folds the running minimum (under the doubles' `<`) over a sequence.
pub open spec fn min_fold(s: Seq<u64>, acc: u64) -> u64
    decreases s.len(),
{
    if s.len() == 0 {
        acc
    } else {
        min_fold(
            s.drop_first(),
            if f64_bits_lt(s[0], acc) {
                s[0]
            } else {
                acc
            },
        )
    }
}

/// Folds the running maximum (under the doubles' `<`) over a sequence.
pub open spec fn max_fold(s: Seq<u64>, acc: u64) -> u64
    decreases s.len(),
{
    if s.len() == 0 {
        acc
    } else {
        max_fold(
            s.drop_first(),
            if f64_bits_lt(acc, s[0]) {
                s[0]
            } else {
                acc
            },
        )
    }
}

pub open spec fn xs_of(s: Seq<GeographicPoint>) -> Seq<u64> {
    Seq::new(s.len(), |i: int| s[i].x)
}

pub open spec fn ys_of(s: Seq<GeographicPoint>) -> Seq<u64> {
    Seq::new(s.len(), |i: int| s[i].y)
}

/// The smallest axis-aligned rectangle containing every coordinate of a
/// non-empty coordinate sequence.
pub open spec fn fit_viewport(s: Seq<GeographicPoint>) -> Viewport {
    Viewport {
        min: GeographicPoint {
            x: min_fold(xs_of(s).drop_first(), s[0].x),
            y: min_fold(ys_of(s).drop_first(), s[0].y),
        },
        max: GeographicPoint {
            x: max_fold(xs_of(s).drop_first(), s[0].x),
            y: max_fold(ys_of(s).drop_first(), s[0].y),
        },
    }
}

/// The viewport's width, as the bits of `max.x - min.x`.
pub open spec fn viewport_width_bits(v: Viewport) -> u64 {
    sub_bits(f64_bits_canon(v.max.x), f64_bits_canon(v.min.x))
}

/// The viewport's height, as the bits of `max.y - min.y`.
pub open spec fn viewport_height_bits(v: Viewport) -> u64 {
    sub_bits(f64_bits_canon(v.max.y), f64_bits_canon(v.min.y))
}

/// Zero width or zero height: the projection's scale is undefined.
pub open spec fn viewport_degenerate(v: Viewport) -> bool {
    f64_bits_is_zero(viewport_width_bits(v)) || f64_bits_is_zero(viewport_height_bits(v))
}

/// The fit-to-data image height: `width / (viewport.width / viewport.height)`
/// rounded to the nearest integer, then converted to u32.
pub open spec fn fit_height(width: u32, v: Viewport) -> u32 {
    bits_to_u32(
        round_bits(
            div_bits(
                u32_to_bits(width),
                div_bits(viewport_width_bits(v), viewport_height_bits(v)),
            ),
        ),
    )
}

pub proof fn lemma_min_fold_snoc(s: Seq<u64>, acc: u64, e: u64)
    ensures
        min_fold(s.push(e), acc) == (if f64_bits_lt(e, min_fold(s, acc)) {
            e
        } else {
            min_fold(s, acc)
        }),
    decreases s.len(),
{
    if s.len() == 0 {
        let acc2 = if f64_bits_lt(e, acc) {
            e
        } else {
            acc
        };
        assert(s.push(e)[0] == e);
        assert(s.push(e).drop_first() =~= Seq::<u64>::empty());
        assert(min_fold(s.push(e), acc) == min_fold(Seq::<u64>::empty(), acc2));
        assert(min_fold(Seq::<u64>::empty(), acc2) == acc2);
        assert(min_fold(s, acc) == acc);
    } else {
        let t = s.drop_first();
        let acc2 = if f64_bits_lt(s[0], acc) {
            s[0]
        } else {
            acc
        };
        assert(s.push(e)[0] == s[0]);
        assert(s.push(e).drop_first() =~= t.push(e));
        lemma_min_fold_snoc(t, acc2, e);
        assert(min_fold(s.push(e), acc) == min_fold(t.push(e), acc2));
        assert(min_fold(s, acc) == min_fold(t, acc2));
    }
}

pub proof fn lemma_max_fold_snoc(s: Seq<u64>, acc: u64, e: u64)
    ensures
        max_fold(s.push(e), acc) == (if f64_bits_lt(max_fold(s, acc), e) {
            e
        } else {
            max_fold(s, acc)
        }),
    decreases s.len(),
{
    if s.len() == 0 {
        let acc2 = if f64_bits_lt(acc, e) {
            e
        } else {
            acc
        };
        assert(s.push(e)[0] == e);
        assert(s.push(e).drop_first() =~= Seq::<u64>::empty());
        assert(max_fold(s.push(e), acc) == max_fold(Seq::<u64>::empty(), acc2));
        assert(max_fold(Seq::<u64>::empty(), acc2) == acc2);
        assert(max_fold(s, acc) == acc);
    } else {
        let t = s.drop_first();
        let acc2 = if f64_bits_lt(acc, s[0]) {
            s[0]
        } else {
            acc
        };
        assert(s.push(e)[0] == s[0]);
        assert(s.push(e).drop_first() =~= t.push(e));
        lemma_max_fold_snoc(t, acc2, e);
        assert(max_fold(s.push(e), acc) == max_fold(t.push(e), acc2));
        assert(max_fold(s, acc) == max_fold(t, acc2));
    }
}

/// The minimum fold is a lower bound of everything folded over, is one of
/// the folded values (or the seed), and folds NaN seeds to themselves.
pub proof fn lemma_min_fold_bounds(s: Seq<u64>, acc: u64)
    ensures
        forall|i: int| 0 <= i < s.len() ==> !f64_bits_lt(#[trigger] s[i], min_fold(s, acc)),
        !f64_bits_lt(acc, min_fold(s, acc)),
        min_fold(s, acc) == acc || exists|i: int|
            0 <= i < s.len() && min_fold(s, acc) == s[i],
        f64_bits_is_nan(acc) ==> min_fold(s, acc) == acc,
        !f64_bits_is_nan(acc) ==> !f64_bits_is_nan(min_fold(s, acc)),
    decreases s.len(),
{
    if s.len() == 0 {
    } else {
        let acc2 = if f64_bits_lt(s[0], acc) {
            s[0]
        } else {
            acc
        };
        let t = s.drop_first();
        lemma_min_fold_bounds(t, acc2);
        let m = min_fold(s, acc);
        assert(m == min_fold(t, acc2));
        assert(!f64_bits_lt(s[0], m));
        assert forall|i: int| 0 < i < s.len() implies !f64_bits_lt(#[trigger] s[i], m) by {
            assert(s[i] == t[i - 1]);
        }
        if m != acc2 {
            let j = choose|j: int| 0 <= j < t.len() && m == t[j];
            assert(s[j + 1] == m);
        }
    }
}

/// The maximum fold is an upper bound of everything folded over, is one of
/// the folded values (or the seed), and folds NaN seeds to themselves.
pub proof fn lemma_max_fold_bounds(s: Seq<u64>, acc: u64)
    ensures
        forall|i: int| 0 <= i < s.len() ==> !f64_bits_lt(max_fold(s, acc), #[trigger] s[i]),
        !f64_bits_lt(max_fold(s, acc), acc),
        max_fold(s, acc) == acc || exists|i: int|
            0 <= i < s.len() && max_fold(s, acc) == s[i],
        f64_bits_is_nan(acc) ==> max_fold(s, acc) == acc,
        !f64_bits_is_nan(acc) ==> !f64_bits_is_nan(max_fold(s, acc)),
    decreases s.len(),
{
    if s.len() == 0 {
    } else {
        let acc2 = if f64_bits_lt(acc, s[0]) {
            s[0]
        } else {
            acc
        };
        let t = s.drop_first();
        lemma_max_fold_bounds(t, acc2);
        let m = max_fold(s, acc);
        assert(m == max_fold(t, acc2));
        assert(!f64_bits_lt(m, s[0]));
        assert forall|i: int| 0 < i < s.len() implies !f64_bits_lt(m, #[trigger] s[i]) by {
            assert(s[i] == t[i - 1]);
        }
        if m != acc2 {
            let j = choose|j: int| 0 <= j < t.len() && m == t[j];
            assert(s[j + 1] == m);
        }
    }
}

/// The fit-to-data viewport contains every coordinate of the dataset (no
/// coordinate lies strictly outside any of its four sides), and is tight:
/// each of the four sides is attained by some coordinate of the dataset.
pub proof fn lemma_fit_viewport_bounds(s: Seq<GeographicPoint>)
    requires
        s.len() > 0,
    ensures
        forall|i: int| 0 <= i < s.len() ==> !f64_bits_lt(#[trigger] s[i].x, fit_viewport(s).min.x),
        forall|i: int| 0 <= i < s.len() ==> !f64_bits_lt(fit_viewport(s).max.x, #[trigger] s[i].x),
        forall|i: int| 0 <= i < s.len() ==> !f64_bits_lt(#[trigger] s[i].y, fit_viewport(s).min.y),
        forall|i: int| 0 <= i < s.len() ==> !f64_bits_lt(fit_viewport(s).max.y, #[trigger] s[i].y),
        exists|i: int| 0 <= i < s.len() && #[trigger] s[i].x == fit_viewport(s).min.x,
        exists|i: int| 0 <= i < s.len() && #[trigger] s[i].x == fit_viewport(s).max.x,
        exists|i: int| 0 <= i < s.len() && #[trigger] s[i].y == fit_viewport(s).min.y,
        exists|i: int| 0 <= i < s.len() && #[trigger] s[i].y == fit_viewport(s).max.y,
{
    let xs = xs_of(s);
    let ys = ys_of(s);
    lemma_min_fold_bounds(xs.drop_first(), s[0].x);
    lemma_max_fold_bounds(xs.drop_first(), s[0].x);
    lemma_min_fold_bounds(ys.drop_first(), s[0].y);
    lemma_max_fold_bounds(ys.drop_first(), s[0].y);
    let v = fit_viewport(s);
    assert forall|i: int| 0 <= i < s.len() implies !f64_bits_lt(#[trigger] s[i].x, v.min.x) by {
        if i > 0 {
            assert(xs.drop_first()[i - 1] == s[i].x);
        }
    }
    assert forall|i: int| 0 <= i < s.len() implies !f64_bits_lt(v.max.x, #[trigger] s[i].x) by {
        if i > 0 {
            assert(xs.drop_first()[i - 1] == s[i].x);
        }
    }
    assert forall|i: int| 0 <= i < s.len() implies !f64_bits_lt(#[trigger] s[i].y, v.min.y) by {
        if i > 0 {
            assert(ys.drop_first()[i - 1] == s[i].y);
        }
    }
    assert forall|i: int| 0 <= i < s.len() implies !f64_bits_lt(v.max.y, #[trigger] s[i].y) by {
        if i > 0 {
            assert(ys.drop_first()[i - 1] == s[i].y);
        }
    }
    if v.min.x != s[0].x {
        let j = choose|j: int| 0 <= j < xs.drop_first().len() && v.min.x == xs.drop_first()[j];
        assert(s[j + 1].x == v.min.x);
    }
    if v.max.x != s[0].x {
        let j = choose|j: int| 0 <= j < xs.drop_first().len() && v.max.x == xs.drop_first()[j];
        assert(s[j + 1].x == v.max.x);
    }
    if v.min.y != s[0].y {
        let j = choose|j: int| 0 <= j < ys.drop_first().len() && v.min.y == ys.drop_first()[j];
        assert(s[j + 1].y == v.min.y);
    }
    if v.max.y != s[0].y {
        let j = choose|j: int| 0 <= j < ys.drop_first().len() && v.max.y == ys.drop_first()[j];
        assert(s[j + 1].y == v.max.y);
    }
}

impl Viewport {
    /// The fixed whole-world viewport.
    pub fn world() -> (v: Viewport)
        ensures
            v == world_viewport(),
    {
        Viewport {
            min: GeographicPoint { x: WORLD_MIN_X_BITS, y: WORLD_MIN_Y_BITS },
            max: GeographicPoint { x: WORLD_MAX_X_BITS, y: WORLD_MAX_Y_BITS },
        }
    }
}

/// Resolves the projection window and the output image height: the whole
/// world and a square image, or, with fit-to-data, the dataset's bounding
/// rectangle with the height derived from its aspect ratio. An empty dataset
/// and a zero-area bounding rectangle are reported as errors.
#[verifier::loop_isolation(false)]
pub fn resolve_viewport(gs: &Vec<Geometry>, fit_to_data: bool, width: u32) -> (r: Result<
    (Viewport, u32),
    ViewportError,
>)
    requires
        width >= 1,
    ensures
        match r {
            Ok(vh) => {
                &&& (!fit_to_data ==> vh.0 == world_viewport() && vh.1 == width)
                &&& (fit_to_data ==> {
                    &&& collection_coords(gs@).len() > 0
                    &&& vh.0 == fit_viewport(collection_coords(gs@))
                    &&& !viewport_degenerate(vh.0)
                    &&& vh.1 == fit_height(width, vh.0)
                })
            },
            Err(e) => fit_to_data && match e {
                ViewportError::EmptyGeometry => collection_coords(gs@).len() == 0,
                ViewportError::DegenerateViewport => collection_coords(gs@).len() > 0
                    && viewport_degenerate(fit_viewport(collection_coords(gs@))),
            },
        },
{
    if !fit_to_data {
        return Ok((Viewport::world(), width));
    }
    let mut coords: Vec<GeographicPoint> = Vec::new();
    let mut i: usize = 0;
    while i < gs.len()
        invariant
            0 <= i <= gs.len(),
            coords@ == collection_coords(gs@.take(i as int)),
        decreases gs.len() - i,
    {
        collect_coords(&gs[i], &mut coords);
        proof {
            lemma_collection_coords_take_snoc(gs@, i + 1);
        }
        i = i + 1;
    }
    proof {
        assert(gs@.take(gs@.len() as int) =~= gs@);
    }
    if coords.len() == 0 {
        return Err(ViewportError::EmptyGeometry);
    }
    let s = Ghost(coords@);
    let first = coords[0];
    let mut min_x = first.x;
    let mut min_y = first.y;
    let mut max_x = first.x;
    let mut max_y = first.y;
    let mut j: usize = 1;
    while j < coords.len()
        invariant
            1 <= j <= coords.len(),
            min_x == min_fold(xs_of(s@).subrange(1, j as int), s@[0].x),
            min_y == min_fold(ys_of(s@).subrange(1, j as int), s@[0].y),
            max_x == max_fold(xs_of(s@).subrange(1, j as int), s@[0].x),
            max_y == max_fold(ys_of(s@).subrange(1, j as int), s@[0].y),
        decreases coords.len() - j,
    {
        let c = coords[j];
        proof {
            assert(xs_of(s@).subrange(1, j + 1) =~= xs_of(s@).subrange(1, j as int).push(c.x));
            assert(ys_of(s@).subrange(1, j + 1) =~= ys_of(s@).subrange(1, j as int).push(c.y));
            lemma_min_fold_snoc(xs_of(s@).subrange(1, j as int), s@[0].x, c.x);
            lemma_max_fold_snoc(xs_of(s@).subrange(1, j as int), s@[0].x, c.x);
            lemma_min_fold_snoc(ys_of(s@).subrange(1, j as int), s@[0].y, c.y);
            lemma_max_fold_snoc(ys_of(s@).subrange(1, j as int), s@[0].y, c.y);
        }
        if lt_bits(c.x, min_x) {
            min_x = c.x;
        }
        if lt_bits(max_x, c.x) {
            max_x = c.x;
        }
        if lt_bits(c.y, min_y) {
            min_y = c.y;
        }
        if lt_bits(max_y, c.y) {
            max_y = c.y;
        }
        j = j + 1;
    }
    proof {
        assert(xs_of(s@).subrange(1, coords@.len() as int) =~= xs_of(s@).drop_first());
        assert(ys_of(s@).subrange(1, coords@.len() as int) =~= ys_of(s@).drop_first());
    }
    let v = Viewport {
        min: GeographicPoint { x: min_x, y: min_y },
        max: GeographicPoint { x: max_x, y: max_y },
    };
    assert(v == fit_viewport(collection_coords(gs@)));
    let bw = f64_sub(max_x, min_x);
    let bh = f64_sub(max_y, min_y);
    proof {
        lemma_canon_class(bw);
        lemma_canon_class(bh);
    }
    if is_zero_bits(bw) || is_zero_bits(bh) {
        return Err(ViewportError::DegenerateViewport);
    }
    let wf = f64_from_u32(width);
    let ratio = f64_div(bw, bh);
    let hq = f64_div(wf, ratio);
    let hr = f64_round(hq);
    let h = f64_to_u32(hr);
    proof {
        lemma_canon_class(wf);
        lemma_canon_class(ratio);
        lemma_canon_class(hq);
        lemma_canon_class(hr);
    }
    Ok((v, h))
}

} // verus!
