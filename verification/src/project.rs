//! The coordinate projector: the affine, y-flipped map from a geographic
//! coordinate pair to an integer pixel coordinate, with the documented
//! substitutions for an infinite or undefined y and truncation toward zero.
//! A degenerate viewport width propagates unmodified into the x truncation;
//! the asymmetry with y is deliberate and is preserved here.
use vstd::prelude::*;
use crate::float_bits::{
    bits_to_i32, div_bits, f64_bits_canon, f64_bits_is_infinite, f64_bits_is_nan, f64_div,
    f64_from_u32, f64_mul, f64_sub, f64_to_i32, is_infinite_bits, is_nan_bits,
    lemma_canon_class, mul_bits, sub_bits, u32_to_bits,
};
use crate::geometry::GeographicPoint;
use crate::viewport::{viewport_height_bits, viewport_width_bits, Viewport};

verus! {

/// A pixel position; it may lie outside the canvas bounds, no clamping is
/// performed beyond the substitutions applied to y.
#[derive(Clone, Copy, PartialEq, Eq, Structural, Debug)]
pub struct PixelCoordinate {
    pub x: i32,
    pub y: i32,
}

/// Bits of `(x - viewport.min.x) * (width / viewport.width)`.
pub open spec fn spec_px_bits(x: u64, v: Viewport, width: u32) -> u64 {
    mul_bits(
        sub_bits(f64_bits_canon(x), f64_bits_canon(v.min.x)),
        div_bits(u32_to_bits(width), viewport_width_bits(v)),
    )
}

/// Bits of `height - (y - viewport.min.y) * (height / viewport.height)`.
pub open spec fn spec_py_raw_bits(y: u64, v: Viewport, height: u32) -> u64 {
    sub_bits(
        u32_to_bits(height),
        mul_bits(
            sub_bits(f64_bits_canon(y), f64_bits_canon(v.min.y)),
            div_bits(u32_to_bits(height), viewport_height_bits(v)),
        ),
    )
}

/// The projected pixel x: truncation of the scaled offset, with no
/// substitution for an infinite or undefined value.
pub open spec fn spec_project_x(x: u64, v: Viewport, width: u32) -> i32 {
    bits_to_i32(spec_px_bits(x, v, width))
}

/// The projected pixel y: an infinite value is replaced by the canvas
/// height, an undefined one by 0, and the rest truncate toward zero.
pub open spec fn spec_project_y(y: u64, v: Viewport, height: u32) -> i32 {
    let y0 = spec_py_raw_bits(y, v, height);
    if f64_bits_is_infinite(y0) {
        if height <= i32::MAX as u32 {
            height as i32
        } else {
            i32::MAX
        }
    } else if f64_bits_is_nan(y0) {
        0
    } else {
        bits_to_i32(y0)
    }
}

pub open spec fn spec_project(p: GeographicPoint, v: Viewport, width: u32, height: u32)
    -> PixelCoordinate {
    PixelCoordinate {
        x: spec_project_x(p.x, v, width),
        y: spec_project_y(p.y, v, height),
    }
}

/// Maps one geographic coordinate pair to an integer pixel coordinate given
/// the viewport and the canvas dimensions.
pub fn project_coordinate(p: GeographicPoint, v: Viewport, width: u32, height: u32) -> (r:
    PixelCoordinate)
    ensures
        r == spec_project(p, v, width, height),
{
    let hf = f64_from_u32(height);
    let wf = f64_from_u32(width);
    proof {
        lemma_canon_class(hf);
        lemma_canon_class(wf);
    }
    let bw = f64_sub(v.max.x, v.min.x);
    let xs = f64_div(wf, bw);
    let dx = f64_sub(p.x, v.min.x);
    let xb = f64_mul(dx, xs);
    let px = f64_to_i32(xb);
    assert(f64_bits_canon(xb) == spec_px_bits(p.x, v, width));
    let bh = f64_sub(v.max.y, v.min.y);
    let ys = f64_div(hf, bh);
    let dy = f64_sub(p.y, v.min.y);
    let yr = f64_mul(dy, ys);
    let y0 = f64_sub(hf, yr);
    proof {
        lemma_canon_class(y0);
        assert(f64_bits_canon(y0) == spec_py_raw_bits(p.y, v, height));
    }
    let py: i32;
    if is_infinite_bits(y0) {
        py = f64_to_i32(hf);
    } else if is_nan_bits(y0) {
        py = f64_to_i32(0);
    } else {
        py = f64_to_i32(y0);
    }
    PixelCoordinate { x: px, y: py }
}

} // verus!
