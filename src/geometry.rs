//! Scale, crop, paste and blur geometry for one display.
//!
//! Scale factors are exact ratios: a scale `num / den` applied to a side `v`
//! gives `v * num / den`, rounded down.
use vstd::prelude::*;
use vstd::arithmetic::div_mod::{
    lemma_div_by_multiple, lemma_div_is_ordered, lemma_multiply_divide_le,
};

verus! {

/// Width and height of an image, in pixels.
#[derive(Clone, Copy, Debug, PartialEq, Eq, Structural)]
pub struct Dimensions {
    pub width: u32,
    pub height: u32,
}

/// A sub-rectangle of a buffer: top-left corner and size.
#[derive(Clone, Copy, Debug, PartialEq, Eq, Structural)]
pub struct CropRect {
    pub x: u32,
    pub y: u32,
    pub width: u32,
    pub height: u32,
}

/// Where the top-left corner of an overlay lands on a background.
#[derive(Clone, Copy, Debug, PartialEq, Eq, Structural)]
pub struct Offset {
    pub x: u32,
    pub y: u32,
}

/// Why a scale could not be planned.
#[derive(Clone, Copy, Debug, PartialEq, Eq, Structural)]
pub enum PlanError {
    /// A source or target side is zero.
    InvalidDimensions,
    /// A planned side does not fit in 32 bits.
    TooLarge,
    /// A planned side rounds down to zero pixels.
    ZeroSide,
}

/// All four sides are positive.
pub open spec fn sides_positive(sw: int, sh: int, tw: int, th: int) -> bool {
    sw > 0 && sh > 0 && tw > 0 && th > 0
}

/// The smaller of `tw / sw` and `th / sh`, as (numerator, denominator).
pub open spec fn fit_scale(sw: int, sh: int, tw: int, th: int) -> (int, int) {
    if tw * sh <= th * sw {
        (tw, sw)
    } else {
        (th, sh)
    }
}

/// The larger of `tw / sw` and `th / sh`, as (numerator, denominator).
pub open spec fn fill_scale(sw: int, sh: int, tw: int, th: int) -> (int, int) {
    if tw * sh >= th * sw {
        (tw, sw)
    } else {
        (th, sh)
    }
}

/// A side scaled by `scale` and rounded down.
pub open spec fn scaled(v: int, scale: (int, int)) -> int {
    v * scale.0 / scale.1
}

/// The fit size: the source scaled by the fit scale.
pub open spec fn fit_dims(sw: int, sh: int, tw: int, th: int) -> (int, int) {
    let s = fit_scale(sw, sh, tw, th);
    (scaled(sw, s), scaled(sh, s))
}

/// The fill size: the source scaled by the fill scale.
pub open spec fn fill_dims(sw: int, sh: int, tw: int, th: int) -> (int, int) {
    let s = fill_scale(sw, sh, tw, th);
    (scaled(sw, s), scaled(sh, s))
}

/// `lo <= v <= hi` clamp, with `lo` winning when `hi < lo`.
pub open spec fn clamp_low(v: int, lo: int, hi: int) -> int {
    let m = if v <= hi {
        v
    } else {
        hi
    };
    if m < lo {
        lo
    } else {
        m
    }
}

/// Origin, on one axis, of a window of size `t` centred in a side of size `b`.
pub open spec fn centered_origin(b: int, t: int) -> int {
    clamp_low(b / 2 - t / 2, 0, b - t)
}

/// Origin, on one axis, that centres a side of size `f` on a side of size `b`.
pub open spec fn paste_origin(b: int, f: int) -> int {
    if f <= b {
        (b - f) / 2
    } else {
        0
    }
}

/// Blur radius for a target: the longer side divided by forty, rounded down.
pub open spec fn blur_radius(tw: int, th: int) -> int {
    (if tw >= th {
        tw
    } else {
        th
    }) / 40
}

proof fn lemma_scaled_bounds(v: int, num: int, den: int, bound: int, other: int)
    requires
        v > 0,
        num > 0,
        den > 0,
        bound > 0,
        other > 0,
    ensures
        num * v <= bound * den ==> v * num / den <= bound,
        num * v >= bound * den ==> v * num / den >= bound,
        den * num / den == num,
{
    lemma_div_by_multiple(num, den);
    assert(den * num == num * den) by (nonlinear_arith);
    if num * v <= bound * den {
        assert(v * num <= den * bound) by (nonlinear_arith)
            requires
                num * v <= bound * den,
        ;
        lemma_multiply_divide_le(v * num, den, bound);
    }
    if num * v >= bound * den {
        assert(v * num >= bound * den) by (nonlinear_arith)
            requires
                num * v >= bound * den,
        ;
        lemma_div_is_ordered(bound * den, v * num, den);
        lemma_div_by_multiple(bound, den);
    }
}

/// Size of the largest copy of a `src_w` x `src_h` image, scaled uniformly,
/// that fits inside `target_w` x `target_h`.
///
/// The scale is the smaller of the two side ratios and each side is rounded
/// down. A side that rounds down to zero is an error: no size has a zero side.
pub fn plan_fit(src_w: u32, src_h: u32, target_w: u32, target_h: u32) -> (r: Result<
    Dimensions,
    PlanError,
>)
    ensures
        !sides_positive(src_w as int, src_h as int, target_w as int, target_h as int) ==> r
            == Err::<Dimensions, PlanError>(PlanError::InvalidDimensions),
        sides_positive(src_w as int, src_h as int, target_w as int, target_h as int) ==> {
            let f = fit_dims(src_w as int, src_h as int, target_w as int, target_h as int);
            &&& (f.0 >= 1 && f.1 >= 1) ==> r == Ok::<Dimensions, PlanError>(
                (Dimensions { width: f.0 as u32, height: f.1 as u32 }),
            )
            &&& !(f.0 >= 1 && f.1 >= 1) ==> r == Err::<Dimensions, PlanError>(
                PlanError::ZeroSide,
            )
        },
{
    if src_w == 0 || src_h == 0 || target_w == 0 || target_h == 0 {
        return Err(PlanError::InvalidDimensions);
    }
    let sw = src_w as u64;
    let sh = src_h as u64;
    let tw = target_w as u64;
    let th = target_h as u64;
    proof {
        lemma_scaled_bounds(sh as int, tw as int, sw as int, th as int, 1);
        lemma_scaled_bounds(sw as int, th as int, sh as int, tw as int, 1);
    }
    assert(tw * sh <= u64::MAX) by (nonlinear_arith)
        requires
            tw <= u32::MAX,
            sh <= u32::MAX,
    ;
    assert(th * sw <= u64::MAX) by (nonlinear_arith)
        requires
            th <= u32::MAX,
            sw <= u32::MAX,
    ;
    if tw * sh <= th * sw {
        let h = sh * tw / sw;
        if h == 0 {
            return Err(PlanError::ZeroSide);
        }
        Ok(Dimensions { width: target_w, height: h as u32 })
    } else {
        let w = sw * th / sh;
        if w == 0 {
            return Err(PlanError::ZeroSide);
        }
        Ok(Dimensions { width: w as u32, height: target_h })
    }
}

/// Size of the smallest copy of a `src_w` x `src_h` image, scaled uniformly,
/// that covers `target_w` x `target_h`.
///
/// The scale is the larger of the two side ratios and each side is rounded
/// down; the ratios are compared exactly, so neither side falls short of the
/// target.
pub fn plan_fill(src_w: u32, src_h: u32, target_w: u32, target_h: u32) -> (r: Result<
    Dimensions,
    PlanError,
>)
    ensures
        !sides_positive(src_w as int, src_h as int, target_w as int, target_h as int) ==> r
            == Err::<Dimensions, PlanError>(PlanError::InvalidDimensions),
        sides_positive(src_w as int, src_h as int, target_w as int, target_h as int) ==> {
            let f = fill_dims(src_w as int, src_h as int, target_w as int, target_h as int);
            &&& (f.0 <= u32::MAX && f.1 <= u32::MAX) ==> r == Ok::<Dimensions, PlanError>(
                (Dimensions { width: f.0 as u32, height: f.1 as u32 }),
            )
            &&& !(f.0 <= u32::MAX && f.1 <= u32::MAX) ==> r == Err::<Dimensions, PlanError>(
                PlanError::TooLarge,
            )
        },
{
    if src_w == 0 || src_h == 0 || target_w == 0 || target_h == 0 {
        return Err(PlanError::InvalidDimensions);
    }
    let sw = src_w as u64;
    let sh = src_h as u64;
    let tw = target_w as u64;
    let th = target_h as u64;
    proof {
        lemma_scaled_bounds(sh as int, tw as int, sw as int, th as int, 1);
        lemma_scaled_bounds(sw as int, th as int, sh as int, tw as int, 1);
    }
    assert(tw * sh <= u64::MAX) by (nonlinear_arith)
        requires
            tw <= u32::MAX,
            sh <= u32::MAX,
    ;
    assert(th * sw <= u64::MAX) by (nonlinear_arith)
        requires
            th <= u32::MAX,
            sw <= u32::MAX,
    ;
    if tw * sh >= th * sw {
        let h = sh * tw / sw;
        if h > u32::MAX as u64 {
            return Err(PlanError::TooLarge);
        }
        Ok(Dimensions { width: target_w, height: h as u32 })
    } else {
        let w = sw * th / sh;
        if w > u32::MAX as u64 {
            return Err(PlanError::TooLarge);
        }
        Ok(Dimensions { width: w as u32, height: target_h })
    }
}

/// A `target_w` x `target_h` window centred in a `buffer_w` x `buffer_h`
/// buffer.
///
/// The origin is clamped into `[0, buffer - target]` on each axis, and to 0
/// where the buffer is the smaller of the two.
pub fn plan_centered_crop(buffer_w: u32, buffer_h: u32, target_w: u32, target_h: u32) -> (r:
    CropRect)
    ensures
        r.x == centered_origin(buffer_w as int, target_w as int),
        r.y == centered_origin(buffer_h as int, target_h as int),
        r.width == target_w,
        r.height == target_h,
{
    (CropRect {
        x: centered_origin_exec(buffer_w, target_w),
        y: centered_origin_exec(buffer_h, target_h),
        width: target_w,
        height: target_h,
    })
}

fn centered_origin_exec(b: u32, t: u32) -> (r: u32)
    ensures
        r == centered_origin(b as int, t as int),
{
    let v = (b / 2) as i64 - (t / 2) as i64;
    let hi = b as i64 - t as i64;
    let m = if v <= hi {
        v
    } else {
        hi
    };
    if m < 0 {
        0
    } else {
        m as u32
    }
}

/// Where to paste a `fit_w` x `fit_h` image so that it is centred on a
/// `background_w` x `background_h` one; 0 on an axis where it does not fit.
pub fn plan_paste_offset(background_w: u32, background_h: u32, fit_w: u32, fit_h: u32) -> (r:
    Offset)
    ensures
        r.x == paste_origin(background_w as int, fit_w as int),
        r.y == paste_origin(background_h as int, fit_h as int),
{
    let x = if fit_w <= background_w {
        (background_w - fit_w) / 2
    } else {
        0
    };
    let y = if fit_h <= background_h {
        (background_h - fit_h) / 2
    } else {
        0
    };
    Offset { x, y }
}

/// Blur radius for the background of a `target_w` x `target_h` display: the
/// longer side divided by forty, rounded down. Zero for small targets.
pub fn plan_blur_radius(target_w: u32, target_h: u32) -> (r: u32)
    ensures
        r == blur_radius(target_w as int, target_h as int),
{
    let m = if target_w >= target_h {
        target_w
    } else {
        target_h
    };
    m / 40
}

/// The fit size stays inside the target and touches it on at least one axis.
pub proof fn lemma_fit_within_target(src_w: u32, src_h: u32, target_w: u32, target_h: u32)
    requires
        sides_positive(src_w as int, src_h as int, target_w as int, target_h as int),
    ensures
        ({
            let f = fit_dims(src_w as int, src_h as int, target_w as int, target_h as int);
            &&& 0 <= f.0 <= target_w
            &&& 0 <= f.1 <= target_h
            &&& (f.0 == target_w || f.1 == target_h)
        }),
{
    let (sw, sh, tw, th) = (src_w as int, src_h as int, target_w as int, target_h as int);
    lemma_scaled_bounds(sh, tw, sw, th, 1);
    lemma_scaled_bounds(sw, th, sh, tw, 1);
}

/// The fill size covers the target on both axes.
pub proof fn lemma_fill_covers_target(src_w: u32, src_h: u32, target_w: u32, target_h: u32)
    requires
        sides_positive(src_w as int, src_h as int, target_w as int, target_h as int),
    ensures
        ({
            let f = fill_dims(src_w as int, src_h as int, target_w as int, target_h as int);
            &&& f.0 >= target_w
            &&& f.1 >= target_h
            &&& (f.0 == target_w || f.1 == target_h)
        }),
{
    let (sw, sh, tw, th) = (src_w as int, src_h as int, target_w as int, target_h as int);
    lemma_scaled_bounds(sh, tw, sw, th, 1);
    lemma_scaled_bounds(sw, th, sh, tw, 1);
}

/// A centred crop of a buffer at least as large as the target lies inside
/// the buffer and has exactly the target's size.
pub proof fn lemma_centered_crop_inside(buffer_w: u32, buffer_h: u32, target_w: u32, target_h: u32)
    requires
        buffer_w >= target_w,
        buffer_h >= target_h,
    ensures
        ({
            let x = centered_origin(buffer_w as int, target_w as int);
            let y = centered_origin(buffer_h as int, target_h as int);
            &&& 0 <= x && x + target_w <= buffer_w
            &&& 0 <= y && y + target_h <= buffer_h
        }),
{
}

} // verus!
