use crate::error::MagickError;
use vstd::arithmetic::div_mod::{lemma_fundamental_div_mod, lemma_mod_pos_bound};
use vstd::prelude::*;

verus! {

/// What size a resize aims at.
#[derive(Debug, Clone, Copy, PartialEq, Eq, Structural)]
pub enum ResizeTarget {
    /// A width and/or a height in pixels. With both given and the aspect ratio
    /// kept, the source is fitted inside the `width`×`height` box.
    Size { width: Option<u32>, height: Option<u32>, ignore_aspect_ratio: bool },
    /// Both sides scaled by this many percent.
    Percentage(u32),
}

/// When a computed resize is applied.
#[derive(Debug, Clone, Copy, PartialEq, Eq, Structural)]
pub enum ResizeConstraint {
    /// Always apply the computed size.
    Unconstrained,
    /// Apply only if the result is strictly smaller in both axes.
    OnlyShrink,
    /// Apply only if the result is strictly larger in both axes.
    OnlyEnlarge,
}

/// A resize request: a target and the constraint under which it applies.
#[derive(Debug, Clone, Copy, PartialEq, Eq, Structural)]
pub struct ResizeGeometry {
    pub target: ResizeTarget,
    pub constraint: ResizeConstraint,
}

/// `n / d` rounded half away from zero, for `n >= 0` and `d > 0`.
pub open spec fn round_div(n: int, d: int) -> int {
    (2 * n + d) / (2 * d)
}

pub open spec fn at_least_one(v: int) -> int {
    if v < 1 { 1 } else { v }
}

/// The side that keeps the source's aspect ratio when the other side is `other_target`.
pub open spec fn derived_side(side: int, other_side: int, other_target: int) -> int {
    at_least_one(round_div(side * other_target, other_side))
}

/// The size a target asks for on a `w`×`h` source, before any constraint;
/// `None` when it names no dimension.
pub open spec fn target_size(t: ResizeTarget, w: int, h: int) -> Option<(int, int)> {
    match t {
        ResizeTarget::Size { width, height, ignore_aspect_ratio } => match (width, height) {
            (Some(tw), Some(th)) => if ignore_aspect_ratio {
                Some((at_least_one(tw as int), at_least_one(th as int)))
            } else if tw * h <= th * w {
                Some((at_least_one(tw as int), derived_side(h, w, tw as int)))
            } else {
                Some((derived_side(w, h, th as int), at_least_one(th as int)))
            },
            (Some(tw), None) => Some((at_least_one(tw as int), derived_side(h, w, tw as int))),
            (None, Some(th)) => Some((derived_side(w, h, th as int), at_least_one(th as int))),
            (None, None) => None,
        },
        ResizeTarget::Percentage(p) => Some(
            (at_least_one(round_div(w * p, 100)), at_least_one(round_div(h * p, 100))),
        ),
    }
}

pub open spec fn constrained(c: ResizeConstraint, size: (int, int), w: int, h: int) -> (int, int) {
    match c {
        ResizeConstraint::Unconstrained => size,
        ResizeConstraint::OnlyShrink => if size.0 < w && size.1 < h { size } else { (w, h) },
        ResizeConstraint::OnlyEnlarge => if size.0 > w && size.1 > h { size } else { (w, h) },
    }
}

/// The dimensions a resize resolves to on a `w`×`h` source; `None` when the
/// target names no dimension or a computed side does not fit in `u32`.
pub open spec fn resolve_spec(g: ResizeGeometry, w: int, h: int) -> Option<(int, int)> {
    match target_size(g.target, w, h) {
        Some(size) => if size.0 <= u32::MAX && size.1 <= u32::MAX {
            Some(constrained(g.constraint, size, w, h))
        } else {
            None
        },
        None => None,
    }
}

proof fn lemma_round_div_bounds(n: int, d: int)
    requires
        n >= 0,
        d > 0,
    ensures
        round_div(n, d) >= 0,
        2 * round_div(n, d) * d <= 2 * n + d,
        2 * n + d < 2 * round_div(n, d) * d + 2 * d,
{
    let x = 2 * n + d;
    let q = x / (2 * d);
    lemma_fundamental_div_mod(x, 2 * d);
    lemma_mod_pos_bound(x, 2 * d);
    assert(q >= 0) by {
        vstd::arithmetic::div_mod::lemma_div_pos_is_pos(x, 2 * d);
    }
    assert(2 * q * d == (2 * d) * q) by (nonlinear_arith);
}

proof fn lemma_round_div_at_most(n: int, d: int, bound: int)
    requires
        n >= 0,
        d > 0,
        bound >= 0,
        n <= bound * d,
    ensures
        round_div(n, d) <= bound,
{
    lemma_round_div_bounds(n, d);
    let r = round_div(n, d);
    assert(r <= bound) by (nonlinear_arith)
        requires
            2 * r * d <= 2 * n + d,
            n <= bound * d,
            d > 0,
    ;
}

/// The derived side is within one source pixel of the exact proportion.
proof fn lemma_derived_side_close(side: int, other_side: int, t: int)
    requires
        side > 0,
        other_side > 0,
        t >= 0,
    ensures
        derived_side(side, other_side, t) >= 1,
        -other_side <= derived_side(side, other_side, t) * other_side - side * t <= other_side,
{
    let n = side * t;
    assert(side * t >= 0) by (nonlinear_arith)
        requires
            side > 0,
            t >= 0,
    ;
    lemma_round_div_bounds(n, other_side);
    let r = round_div(n, other_side);
    let rd = r * other_side;
    assert(2 * r * other_side == 2 * rd) by (nonlinear_arith)
        requires
            rd == r * other_side,
    ;
    if r < 1 {
        assert(r == 0);
        assert(2 * n < 2 * other_side);
    }
}

fn round_div_exec(n: u128, d: u128) -> (r: u128)
    requires
        d > 0,
        n <= 0xffff_ffff_ffff_ffff,
        d <= 0xffff_ffff,
    ensures
        r == round_div(n as int, d as int),
{
    (2 * n + d) / (2 * d)
}

fn mul_wide(a: u32, b: u32) -> (r: u128)
    ensures
        r == a as int * b as int,
        r <= 0xffff_ffff_ffff_ffff,
{
    assert(a as int * b as int <= 0xffff_ffff_ffff_ffff) by (nonlinear_arith)
        requires
            a <= 0xffff_ffff,
            b <= 0xffff_ffff,
    ;
    a as u128 * b as u128
}

fn at_least_one_exec(v: u128) -> (r: u128)
    ensures
        r == at_least_one(v as int),
{
    if v < 1 {
        1
    } else {
        v
    }
}

fn derived_side_exec(side: u32, other_side: u32, other_target: u32) -> (r: u128)
    requires
        other_side > 0,
    ensures
        r == derived_side(side as int, other_side as int, other_target as int),
{
    let n: u128 = mul_wide(side, other_target);
    at_least_one_exec(round_div_exec(n, other_side as u128))
}

/// Resolves a resize geometry against a `w`×`h` source.
pub fn resolve(geometry: &ResizeGeometry, w: u32, h: u32) -> (r: Result<(u32, u32), MagickError>)
    requires
        w > 0,
        h > 0,
    ensures
        resolve_spec(*geometry, w as int, h as int) matches Some(d) ==> r matches Ok(p) && p.0
            == d.0 && p.1 == d.1,
        resolve_spec(*geometry, w as int, h as int) is None ==> r == Err::<(u32, u32), MagickError>(
            MagickError::InvalidGeometry,
        ),
        r matches Ok(p) ==> p.0 > 0 && p.1 > 0,
{
    let size: (u128, u128) = match geometry.target {
        ResizeTarget::Size { width, height, ignore_aspect_ratio } => match (width, height) {
            (Some(tw), Some(th)) => {
                if ignore_aspect_ratio {
                    (at_least_one_exec(tw as u128), at_least_one_exec(th as u128))
                } else if mul_wide(tw, h) <= mul_wide(th, w) {
                    (at_least_one_exec(tw as u128), derived_side_exec(h, w, tw))
                } else {
                    (derived_side_exec(w, h, th), at_least_one_exec(th as u128))
                }
            },
            (Some(tw), None) => (at_least_one_exec(tw as u128), derived_side_exec(h, w, tw)),
            (None, Some(th)) => (derived_side_exec(w, h, th), at_least_one_exec(th as u128)),
            (None, None) => {
                return Err(MagickError::InvalidGeometry);
            },
        },
        ResizeTarget::Percentage(p) => {
            let nw: u128 = mul_wide(w, p);
            let nh: u128 = mul_wide(h, p);
            (at_least_one_exec(round_div_exec(nw, 100)), at_least_one_exec(round_div_exec(nh, 100)))
        },
    };
    if size.0 > u32::MAX as u128 || size.1 > u32::MAX as u128 {
        return Err(MagickError::InvalidGeometry);
    }
    let (a, b) = (size.0 as u32, size.1 as u32);
    match geometry.constraint {
        ResizeConstraint::Unconstrained => Ok((a, b)),
        ResizeConstraint::OnlyShrink => if a < w && b < h {
            Ok((a, b))
        } else {
            Ok((w, h))
        },
        ResizeConstraint::OnlyEnlarge => if a > w && b > h {
            Ok((a, b))
        } else {
            Ok((w, h))
        },
    }
}

/// Fitting a source inside a box keeps its aspect ratio: the result lies
/// inside the box, touches it on at least one side, and the cross products
/// `w' * h` and `h' * w` differ by at most one source side (the derived side is
/// within one pixel of the exact proportion).
pub proof fn lemma_fit_keeps_aspect(w: u32, h: u32, box_w: u32, box_h: u32)
    requires
        w > 0,
        h > 0,
        box_w > 0,
        box_h > 0,
    ensures
        ({
            let g = ResizeGeometry {
                target: ResizeTarget::Size {
                    width: Some(box_w),
                    height: Some(box_h),
                    ignore_aspect_ratio: false,
                },
                constraint: ResizeConstraint::Unconstrained,
            };
            let tol = if w >= h { w as int } else { h as int };
            resolve_spec(g, w as int, h as int) matches Some(d) && 1 <= d.0 <= box_w && 1 <= d.1
                <= box_h && (d.0 == box_w || d.1 == box_h) && -tol <= d.0 * h - d.1 * w <= tol
        }),
{
    if box_w as int * h as int <= box_h as int * w as int {
        lemma_derived_side_close(h as int, w as int, box_w as int);
        lemma_round_div_at_most(h * box_w, w as int, box_h as int);
    } else {
        lemma_derived_side_close(w as int, h as int, box_h as int);
        lemma_round_div_at_most(w * box_h, h as int, box_w as int);
    }
}

/// Under `OnlyShrink`, a box at least as large as the source in both axes
/// leaves the source dimensions unchanged.
pub proof fn lemma_only_shrink_keeps_source(
    w: u32,
    h: u32,
    box_w: u32,
    box_h: u32,
    ignore_aspect_ratio: bool,
)
    requires
        w > 0,
        h > 0,
        box_w >= w,
        box_h >= h,
    ensures
        resolve_spec(
            ResizeGeometry {
                target: ResizeTarget::Size {
                    width: Some(box_w),
                    height: Some(box_h),
                    ignore_aspect_ratio,
                },
                constraint: ResizeConstraint::OnlyShrink,
            },
            w as int,
            h as int,
        ) == Some((w as int, h as int)),
{
    lemma_fit_keeps_aspect(w, h, box_w, box_h);
}

} // verus!
