//! Geometry utilities: object-fit scaling of a source image into a target
//! box, and rounded-rectangle outlines for filling and clipping.
//!
//! Scales are exact rationals (a numerator over a positive denominator), so
//! the three fit policies are computed without rounding; the integer pixel
//! sizes of the scaled image are derived from them and saturate at
//! `u32::MAX`.

use vstd::prelude::*;
use vstd::arithmetic::div_mod::lemma_fundamental_div_mod;
use vstd::arithmetic::div_mod::lemma_fundamental_div_mod_converse;
use vstd::arithmetic::div_mod::lemma_div_is_ordered;
use vstd::arithmetic::mul::lemma_mul_upper_bound;

use crate::model::ObjectFit;
use crate::model::Radius;

verus! {

/// The smaller of two integers.
pub open spec fn imin(a: int, b: int) -> int {
    if a <= b {
        a
    } else {
        b
    }
}

/// An exact scale factor: `num / den` with `den > 0`.
#[derive(Clone, Copy, Debug, PartialEq, Eq, Structural)]
pub struct Ratio {
    pub num: u32,
    pub den: u32,
}

/// Comparison of two ratios with positive denominators, by cross
/// multiplication.
pub open spec fn ratio_le(a: Ratio, b: Ratio) -> bool {
    a.num * b.den <= b.num * a.den
}

/// Division rounding up (for a positive divisor).
pub open spec fn spec_ceil_div(a: int, b: int) -> int {
    (a + b - 1) / b
}

/// A pixel size clipped to the `u32` range.
pub open spec fn sat32(v: int) -> int {
    if v > u32::MAX {
        u32::MAX as int
    } else {
        v
    }
}

/// The placement of a scaled source image inside a target box: the per-axis
/// scale factors (equal for the uniform policies), the pixel size of the
/// scaled image, and twice the centering offset on each axis (the target
/// size minus the scaled size, so that halving it centers the image).
#[derive(Clone, Copy, Debug, PartialEq, Eq, Structural)]
pub struct FitPlacement {
    pub scale_x: Ratio,
    pub scale_y: Ratio,
    pub scaled_w: u32,
    pub scaled_h: u32,
    pub off2_x: i64,
    pub off2_y: i64,
}

/// The scaled width of `src` pixels under `scale`, rounded up and clipped
/// to the `u32` range.
pub open spec fn spec_scaled_ceil(src: u32, scale: Ratio) -> int {
    sat32(spec_ceil_div(src * scale.num, scale.den as int))
}

/// The scaled width of `src` pixels under `scale`, rounded down and clipped
/// to the `u32` range.
pub open spec fn spec_scaled_floor(src: u32, scale: Ratio) -> int {
    sat32((src * scale.num) / (scale.den as int))
}

/// The placement produced by a fit policy: *cover* takes the larger of the
/// two axis ratios and rounds the scaled size up, *contain* takes the
/// smaller and rounds down, and both center the result; *stretch* scales
/// each axis independently so the image exactly fills the box.
pub open spec fn spec_fit(sw: u32, sh: u32, tw: u32, th: u32, fit: ObjectFit) -> FitPlacement {
    match fit {
        ObjectFit::Cover => {
            let scale = if tw * sh >= th * sw {
                Ratio { num: tw, den: sw }
            } else {
                Ratio { num: th, den: sh }
            };
            let w = spec_scaled_ceil(sw, scale);
            let h = spec_scaled_ceil(sh, scale);
            FitPlacement {
                scale_x: scale,
                scale_y: scale,
                scaled_w: w as u32,
                scaled_h: h as u32,
                off2_x: (tw - w) as i64,
                off2_y: (th - h) as i64,
            }
        },
        ObjectFit::Contain => {
            let scale = if tw * sh <= th * sw {
                Ratio { num: tw, den: sw }
            } else {
                Ratio { num: th, den: sh }
            };
            let w = spec_scaled_floor(sw, scale);
            let h = spec_scaled_floor(sh, scale);
            FitPlacement {
                scale_x: scale,
                scale_y: scale,
                scaled_w: w as u32,
                scaled_h: h as u32,
                off2_x: (tw - w) as i64,
                off2_y: (th - h) as i64,
            }
        },
        ObjectFit::Stretch => FitPlacement {
            scale_x: Ratio { num: tw, den: sw },
            scale_y: Ratio { num: th, den: sh },
            scaled_w: tw,
            scaled_h: th,
            off2_x: 0,
            off2_y: 0,
        },
    }
}

/// Multiplies two `u32` values exactly, in 64 bits.
fn mul_u32(a: u32, b: u32) -> (r: u64)
    ensures
        r == a * b,
{
    proof {
        lemma_mul_upper_bound(a as int, u32::MAX as int, b as int, u32::MAX as int);
        assert((u32::MAX as int) * (u32::MAX as int) < u64::MAX as int);
    }
    (a as u64) * (b as u64)
}

/// Divides rounding up, clipping the quotient to the `u32` range.
fn ceil_div_sat(n: u64, d: u32) -> (r: u32)
    requires
        d > 0,
        n <= (u32::MAX as int) * (u32::MAX as int),
    ensures
        r == sat32(spec_ceil_div(n as int, d as int)),
{
    proof {
        assert((u32::MAX as int) * (u32::MAX as int) + u32::MAX < u64::MAX as int);
        lemma_fundamental_div_mod((n + d - 1) as int, d as int);
    }
    let q = (n + (d as u64) - 1) / (d as u64);
    if q > u32::MAX as u64 {
        u32::MAX
    } else {
        q as u32
    }
}

/// Divides rounding down, clipping the quotient to the `u32` range.
fn floor_div_sat(n: u64, d: u32) -> (r: u32)
    requires
        d > 0,
    ensures
        r == sat32(n as int / d as int),
{
    let q = n / (d as u64);
    if q > u32::MAX as u64 {
        u32::MAX
    } else {
        q as u32
    }
}

/// Computes the placement of a `sw` by `sh` source inside a `tw` by `th`
/// target under the given fit policy.
pub fn compute_fit(sw: u32, sh: u32, tw: u32, th: u32, object_fit: &ObjectFit) -> (r: FitPlacement)
    requires
        sw > 0,
        sh > 0,
    ensures
        r == spec_fit(sw, sh, tw, th, *object_fit),
{
    match object_fit {
        ObjectFit::Cover => {
            let cross_x = mul_u32(tw, sh);
            let cross_y = mul_u32(th, sw);
            let scale = if cross_x >= cross_y {
                Ratio { num: tw, den: sw }
            } else {
                Ratio { num: th, den: sh }
            };
            proof {
                lemma_mul_upper_bound(sw as int, u32::MAX as int, scale.num as int, u32::MAX as int);
                lemma_mul_upper_bound(sh as int, u32::MAX as int, scale.num as int, u32::MAX as int);
            }
            let w = ceil_div_sat(mul_u32(sw, scale.num), scale.den);
            let h = ceil_div_sat(mul_u32(sh, scale.num), scale.den);
            FitPlacement {
                scale_x: scale,
                scale_y: scale,
                scaled_w: w,
                scaled_h: h,
                off2_x: tw as i64 - w as i64,
                off2_y: th as i64 - h as i64,
            }
        },
        ObjectFit::Contain => {
            let cross_x = mul_u32(tw, sh);
            let cross_y = mul_u32(th, sw);
            let scale = if cross_x <= cross_y {
                Ratio { num: tw, den: sw }
            } else {
                Ratio { num: th, den: sh }
            };
            let w = floor_div_sat(mul_u32(sw, scale.num), scale.den);
            let h = floor_div_sat(mul_u32(sh, scale.num), scale.den);
            FitPlacement {
                scale_x: scale,
                scale_y: scale,
                scaled_w: w,
                scaled_h: h,
                off2_x: tw as i64 - w as i64,
                off2_y: th as i64 - h as i64,
            }
        },
        ObjectFit::Stretch => FitPlacement {
            scale_x: Ratio { num: tw, den: sw },
            scale_y: Ratio { num: th, den: sh },
            scaled_w: tw,
            scaled_h: th,
            off2_x: 0,
            off2_y: 0,
        },
    }
}

} // verus!

verus! {

/// Establishes that division of `q * d + r` by `d` (with `0 <= r < d`)
/// yields `q`.
proof fn lemma_div_exact_plus(q: int, d: int, r: int)
    requires
        0 < d,
        0 <= r < d,
        0 <= q,
    ensures
        (q * d + r) / d == q,
{
    lemma_fundamental_div_mod_converse(q * d + r, d, q, r);
}

/// Under the *cover* policy the chosen scale is the larger of the two axis
/// ratios, and the scaled image is at least as large as the target box on
/// both axes (it covers the box; the overflow is clipped by the caller).
pub proof fn lemma_cover_covers(sw: u32, sh: u32, tw: u32, th: u32)
    requires
        sw > 0,
        sh > 0,
    ensures
        ratio_le(Ratio { num: tw, den: sw }, spec_fit(sw, sh, tw, th, ObjectFit::Cover).scale_x),
        ratio_le(Ratio { num: th, den: sh }, spec_fit(sw, sh, tw, th, ObjectFit::Cover).scale_x),
        spec_fit(sw, sh, tw, th, ObjectFit::Cover).scaled_w >= tw,
        spec_fit(sw, sh, tw, th, ObjectFit::Cover).scaled_h >= th,
{
    let r = spec_fit(sw, sh, tw, th, ObjectFit::Cover);
    let scale = r.scale_x;
    assert(scale.den > 0);
    lemma_div_exact_plus(sw as int, scale.den as int, scale.den - 1);
    lemma_div_exact_plus(sh as int, scale.den as int, scale.den - 1);
    if tw * sh >= th * sw {
        // scale is tw / sw: the width scales exactly to tw.
        lemma_div_exact_plus(tw as int, sw as int, sw - 1);
        assert(sw * scale.num == tw * sw) by (nonlinear_arith)
            requires scale.num == tw, scale.den == sw,;
        assert(spec_ceil_div(sw * scale.num, scale.den as int) == tw);
        // the height scales to at least th.
        assert(sh * scale.num >= th * sw) by (nonlinear_arith)
            requires scale.num == tw, tw * sh >= th * sw,;
        lemma_div_exact_plus(th as int, sw as int, sw - 1);
        lemma_div_is_ordered(th * sw + sw - 1, sh * scale.num + sw - 1, sw as int);
        assert(spec_ceil_div(sh * scale.num, scale.den as int) >= th);
    } else {
        lemma_div_exact_plus(th as int, sh as int, sh - 1);
        assert(sh * scale.num == th * sh) by (nonlinear_arith)
            requires scale.num == th, scale.den == sh,;
        assert(spec_ceil_div(sh * scale.num, scale.den as int) == th);
        assert(sw * scale.num >= tw * sh) by (nonlinear_arith)
            requires scale.num == th, th * sw >= tw * sh,;
        assert(sw * scale.num >= tw * sh);
        lemma_div_exact_plus(tw as int, sh as int, sh - 1);
        lemma_div_is_ordered(tw * sh + sh - 1, sw * scale.num + sh - 1, sh as int);
        assert(spec_ceil_div(sw * scale.num, scale.den as int) >= tw);
    }
}

/// Under the *contain* policy the chosen scale is the smaller of the two
/// axis ratios, and the scaled image fits inside the target box on both
/// axes.
pub proof fn lemma_contain_fits(sw: u32, sh: u32, tw: u32, th: u32)
    requires
        sw > 0,
        sh > 0,
    ensures
        ratio_le(spec_fit(sw, sh, tw, th, ObjectFit::Contain).scale_x, Ratio { num: tw, den: sw }),
        ratio_le(spec_fit(sw, sh, tw, th, ObjectFit::Contain).scale_x, Ratio { num: th, den: sh }),
        spec_fit(sw, sh, tw, th, ObjectFit::Contain).scaled_w <= tw,
        spec_fit(sw, sh, tw, th, ObjectFit::Contain).scaled_h <= th,
{
    let r = spec_fit(sw, sh, tw, th, ObjectFit::Contain);
    let scale = r.scale_x;
    if tw * sh <= th * sw {
        lemma_div_exact_plus(tw as int, sw as int, 0);
        assert(sw * scale.num == tw * sw) by (nonlinear_arith)
            requires scale.num == tw, scale.den == sw,;
        assert((sw * scale.num) / (scale.den as int) == tw);
        assert(sh * scale.num <= th * sw) by (nonlinear_arith)
            requires scale.num == tw, tw * sh <= th * sw,;
        lemma_div_exact_plus(th as int, sw as int, 0);
        lemma_div_is_ordered(sh * scale.num, th * sw, sw as int);
        assert((sh * scale.num) / (scale.den as int) <= th);
    } else {
        lemma_div_exact_plus(th as int, sh as int, 0);
        assert(sh * scale.num == th * sh) by (nonlinear_arith)
            requires scale.num == th, scale.den == sh,;
        assert((sh * scale.num) / (scale.den as int) == th);
        assert(sw * scale.num <= tw * sh) by (nonlinear_arith)
            requires scale.num == th, th * sw <= tw * sh,;
        lemma_div_exact_plus(tw as int, sh as int, 0);
        lemma_div_is_ordered(sw * scale.num, tw * sh, sh as int);
        assert((sw * scale.num) / (scale.den as int) <= tw);
    }
}

} // verus!

verus! {

/// One command of a closed outline path.
#[derive(Clone, Copy, Debug, PartialEq, Eq, Structural)]
pub enum PathCmd {
    MoveTo { x: i64, y: i64 },
    LineTo { x: i64, y: i64 },
    QuadTo { cx: i64, cy: i64, x: i64, y: i64 },
    Close,
}

/// A closed geometric boundary, used for filling or clipping.
#[derive(Clone, Debug, PartialEq, Eq)]
pub struct Outline {
    pub cmds: Vec<PathCmd>,
}

/// A corner radius clamped so that it cannot exceed half of either side of
/// its rectangle.
pub open spec fn spec_clamp_radius(r: u32, w: u32, h: u32) -> u32 {
    if r <= w / 2 && r <= h / 2 {
        r
    } else if w / 2 <= h / 2 {
        w / 2
    } else {
        h / 2
    }
}

/// An `int` coordinate narrowed to a path coordinate.
pub open spec fn ci(v: int) -> i64 {
    v as i64
}

/// The outline of a rounded rectangle at `(x, y)` with size `w` by `h` and
/// already-clamped corner radii in top-left, top-right, bottom-right,
/// bottom-left order.  Edges run clockwise from the top-left inset; a
/// corner with radius zero is sharp (its curve segment is omitted), any
/// other corner is a quadratic curve through the rectangle's corner point.
pub open spec fn spec_rounded_cmds(
    x: int,
    y: int,
    w: int,
    h: int,
    tl: int,
    tr: int,
    br: int,
    bl: int,
) -> Seq<PathCmd> {
    seq![
        PathCmd::MoveTo { x: ci(x + tl), y: ci(y) },
        PathCmd::LineTo { x: ci(x + w - tr), y: ci(y) },
    ] + (if tr > 0 {
        seq![PathCmd::QuadTo { cx: ci(x + w), cy: ci(y), x: ci(x + w), y: ci(y + tr) }]
    } else {
        Seq::<PathCmd>::empty()
    }) + seq![
        PathCmd::LineTo { x: ci(x + w), y: ci(y + h - br) },
    ] + (if br > 0 {
        seq![PathCmd::QuadTo { cx: ci(x + w), cy: ci(y + h), x: ci(x + w - br), y: ci(y + h) }]
    } else {
        Seq::<PathCmd>::empty()
    }) + seq![
        PathCmd::LineTo { x: ci(x + bl), y: ci(y + h) },
    ] + (if bl > 0 {
        seq![PathCmd::QuadTo { cx: ci(x), cy: ci(y + h), x: ci(x), y: ci(y + h - bl) }]
    } else {
        Seq::<PathCmd>::empty()
    }) + seq![
        PathCmd::LineTo { x: ci(x), y: ci(y + tl) },
    ] + (if tl > 0 {
        seq![PathCmd::QuadTo { cx: ci(x), cy: ci(y), x: ci(x + tl), y: ci(y) }]
    } else {
        Seq::<PathCmd>::empty()
    }) + seq![PathCmd::Close]
}

/// The outline a radius value denotes on a `w` by `h` rectangle at
/// `(x, y)`: a single radius is applied, clamped, to all four corners; four
/// radii are clamped independently.
pub open spec fn spec_rounded_rect(x: int, y: int, w: u32, h: u32, radius: Radius) -> Seq<PathCmd> {
    match radius {
        Radius::Single(r) => {
            let c = spec_clamp_radius(r, w, h);
            spec_rounded_cmds(x, y, w as int, h as int, c as int, c as int, c as int, c as int)
        },
        Radius::Multiple { tl, tr, br, bl } => spec_rounded_cmds(
            x,
            y,
            w as int,
            h as int,
            spec_clamp_radius(tl, w, h) as int,
            spec_clamp_radius(tr, w, h) as int,
            spec_clamp_radius(br, w, h) as int,
            spec_clamp_radius(bl, w, h) as int,
        ),
    }
}

/// Clamps one corner radius to at most half of either side.
fn clamp_radius(r: u32, w: u32, h: u32) -> (c: u32)
    ensures
        c == spec_clamp_radius(r, w, h),
{
    if r <= w / 2 && r <= h / 2 {
        r
    } else if w / 2 <= h / 2 {
        w / 2
    } else {
        h / 2
    }
}

/// Builds the rounded-rectangle outline for a radius value, with every
/// corner radius clamped to at most half the shorter side so the outline
/// cannot self-intersect.  Coordinates must stay well inside the path
/// coordinate range.
pub fn create_rounded_rect_path(x: i64, y: i64, width: u32, height: u32, radius: &Radius) -> (r:
    Outline)
    requires
        -0x4000_0000_0000 <= x <= 0x4000_0000_0000,
        -0x4000_0000_0000 <= y <= 0x4000_0000_0000,
    ensures
        r.cmds@ == spec_rounded_rect(x as int, y as int, width, height, *radius),
{
    let (tl, tr, br, bl): (u32, u32, u32, u32) = match radius {
        Radius::Single(rv) => {
            let c = clamp_radius(*rv, width, height);
            (c, c, c, c)
        },
        Radius::Multiple { tl, tr, br, bl } => (
            clamp_radius(*tl, width, height),
            clamp_radius(*tr, width, height),
            clamp_radius(*br, width, height),
            clamp_radius(*bl, width, height),
        ),
    };
    let mut cmds: Vec<PathCmd> = Vec::new();
    cmds.push(PathCmd::MoveTo { x: x + tl as i64, y });
    cmds.push(PathCmd::LineTo { x: x + width as i64 - tr as i64, y });
    if tr > 0 {
        cmds.push(PathCmd::QuadTo { cx: x + width as i64, cy: y, x: x + width as i64, y: y
            + tr as i64 });
    }
    cmds.push(PathCmd::LineTo { x: x + width as i64, y: y + height as i64 - br as i64 });
    if br > 0 {
        cmds.push(PathCmd::QuadTo { cx: x + width as i64, cy: y + height as i64, x: x
            + width as i64 - br as i64, y: y + height as i64 });
    }
    cmds.push(PathCmd::LineTo { x: x + bl as i64, y: y + height as i64 });
    if bl > 0 {
        cmds.push(PathCmd::QuadTo { cx: x, cy: y + height as i64, x, y: y + height as i64
            - bl as i64 });
    }
    cmds.push(PathCmd::LineTo { x, y: y + tl as i64 });
    if tl > 0 {
        cmds.push(PathCmd::QuadTo { cx: x, cy: y, x: x + tl as i64, y });
    }
    cmds.push(PathCmd::Close);
    proof {
        assert(cmds@ =~= spec_rounded_rect(x as int, y as int, width, height, *radius));
    }
    Outline { cmds }
}

/// Two clamped corner radii on one side can never overlap: their sum stays
/// within the side's length (the outline does not self-intersect).
pub proof fn lemma_clamped_radii_disjoint(a: u32, b: u32, w: u32, h: u32)
    ensures
        spec_clamp_radius(a, w, h) + spec_clamp_radius(b, w, h) <= w,
        spec_clamp_radius(a, w, h) + spec_clamp_radius(b, w, h) <= h,
{
}

/// A single radius at least half the shorter side is clamped to exactly
/// half the shorter side: the outline degenerates to the full
/// stadium/ellipse-capped rectangle, with every corner carrying the largest
/// radius the rectangle admits.
pub proof fn lemma_full_radius_clamp(r: u32, w: u32, h: u32)
    requires
        r >= imin(w as int, h as int) / 2,
    ensures
        spec_clamp_radius(r, w, h) == imin(w as int, h as int) / 2,
        spec_clamp_radius(r, w, h) == imin(w as int / 2, h as int / 2),
{
}

} // verus!
