//! One full compositing run for one display: resample a fit and a fill copy
//! of the source, crop and blur the fill copy, and lay the fit copy over it.
use vstd::prelude::*;
use crate::buffer::{
    PixelBuffer, composite, crop_fits, cropped, gaussian_blurred, lanczos_resized, overlaid, resample_fits,
    check_resample_fits, crop, gaussian_blur, resize, wide_product,
};
use crate::geometry::{
    blur_radius, centered_origin, fill_dims, fit_dims, paste_origin, plan_blur_radius,
    plan_centered_crop, plan_fill, plan_fit, plan_paste_offset, lemma_centered_crop_inside,
    lemma_fill_covers_target, lemma_fit_within_target, sides_positive,
};

verus! {

/// The resolution one display asks for.
#[derive(Clone, Copy, Debug, PartialEq, Eq, Structural)]
pub struct DisplayTarget {
    pub width: u32,
    pub height: u32,
}

/// Why a wallpaper could not be made.
#[derive(Clone, Copy, Debug, PartialEq, Eq, Structural)]
pub enum PipelineError {
    /// A source or target side is zero, or the source's bytes do not match its size.
    InvalidInput,
    /// The source image could not be decoded.
    DecodeFailure,
    /// The result could not be encoded.
    EncodeFailure,
    /// An image operation cannot run on the planned sizes, or a planned side
    /// rounds down to zero.
    TransformFailure,
}

/// The source is a valid buffer and the target has positive sides.
pub open spec fn inputs_ok(source: &PixelBuffer, tw: int, th: int) -> bool {
    source.valid() && tw > 0 && th > 0
}

/// The fit size has no zero side and the resampler can make the fit copy.
pub open spec fn fit_feasible(sw: int, sh: int, tw: int, th: int) -> bool {
    let f = fit_dims(sw, sh, tw, th);
    f.0 >= 1 && f.1 >= 1 && resample_fits(sw, f.0, f.1)
}

/// The fill size fits in 32 bits, the resampler can make the fill copy, and
/// the cropper can cut the target's window out of it.
pub open spec fn fill_feasible(sw: int, sh: int, tw: int, th: int) -> bool {
    let f = fill_dims(sw, sh, tw, th);
    f.0 <= u32::MAX && f.1 <= u32::MAX && resample_fits(sw, f.0, f.1) && crop_fits(tw, th)
}

/// The blur stage can run on a `w` x `h` buffer with this radius. A zero
/// radius leaves the buffer as it is and always runs.
pub open spec fn can_blur(w: int, h: int, radius: int) -> bool {
    radius == 0 || (w >= 2 && h >= 2 && w * h * 4 <= u32::MAX)
}

/// Every stage of the run can be carried out.
pub open spec fn composable(sw: int, sh: int, tw: int, th: int) -> bool {
    &&& fit_feasible(sw, sh, tw, th)
    &&& fill_feasible(sw, sh, tw, th)
    &&& can_blur(tw, th, blur_radius(tw, th))
}

/// Pixels of the source resampled to the fit size.
pub open spec fn fit_pixels(src: Seq<u8>, sw: int, sh: int, tw: int, th: int) -> Seq<u8> {
    let f = fit_dims(sw, sh, tw, th);
    lanczos_resized(src, sw as nat, sh as nat, f.0 as nat, f.1 as nat)
}

/// Pixels of the source resampled to the fill size, then cropped to the
/// target around the centre.
pub open spec fn fill_pixels(src: Seq<u8>, sw: int, sh: int, tw: int, th: int) -> Seq<u8> {
    let f = fill_dims(sw, sh, tw, th);
    cropped(
        lanczos_resized(src, sw as nat, sh as nat, f.0 as nat, f.1 as nat),
        f.0,
        centered_origin(f.0, tw),
        centered_origin(f.1, th),
        tw,
        th,
    )
}

/// A buffer blurred with `radius`, or left as it is when the radius is zero.
pub open spec fn blurred_background(pixels: Seq<u8>, w: int, h: int, radius: int) -> Seq<u8> {
    if radius == 0 {
        pixels
    } else {
        gaussian_blurred(pixels, w as nat, h as nat, radius as nat)
    }
}

/// The fit image laid, centred, over the blurred fill background.
pub open spec fn combined_pixels(
    fit: Seq<u8>,
    fit_w: int,
    fit_h: int,
    fill: Seq<u8>,
    fill_w: int,
    fill_h: int,
    radius: int,
) -> Seq<u8> {
    overlaid(
        blurred_background(fill, fill_w, fill_h, radius),
        fill_w,
        fit,
        fit_w,
        fit_h,
        paste_origin(fill_w, fit_w),
        paste_origin(fill_h, fit_h),
    )
}

/// The wallpaper for a `tw` x `th` display made from a `sw` x `sh` source.
pub open spec fn wallpaper_pixels(src: Seq<u8>, sw: int, sh: int, tw: int, th: int) -> Seq<u8> {
    let f = fit_dims(sw, sh, tw, th);
    combined_pixels(
        fit_pixels(src, sw, sh, tw, th),
        f.0,
        f.1,
        fill_pixels(src, sw, sh, tw, th),
        tw,
        th,
        blur_radius(tw, th),
    )
}

/// What `compose_wallpaper` returns for `source` and `target`: `InvalidInput`
/// for invalid inputs, `TransformFailure` where a stage cannot run, and
/// otherwise a buffer of exactly the target's size holding the wallpaper.
pub open spec fn composed(
    source: &PixelBuffer,
    target: DisplayTarget,
    r: Result<PixelBuffer, PipelineError>,
) -> bool {
    let (sw, sh) = (source.width as int, source.height as int);
    let (tw, th) = (target.width as int, target.height as int);
    &&& !inputs_ok(source, tw, th) ==> r == Err::<PixelBuffer, PipelineError>(
        PipelineError::InvalidInput,
    )
    &&& inputs_ok(source, tw, th) && !composable(sw, sh, tw, th) ==> r == Err::<
        PixelBuffer,
        PipelineError,
    >(PipelineError::TransformFailure)
    &&& inputs_ok(source, tw, th) && composable(sw, sh, tw, th) ==> r is Ok
    &&& r matches Ok(b) ==> {
        &&& b.width == target.width
        &&& b.height == target.height
        &&& b.valid()
        &&& b.pixels@ == wallpaper_pixels(source.pixels@, sw, sh, tw, th)
    }
}

/// The source resampled to the largest size that fits the screen with its
/// aspect ratio kept; `TransformFailure` when a side of that size rounds down
/// to zero.
pub fn fit_to_size(image: &PixelBuffer, screen_size: (u32, u32)) -> (r: Result<
    PixelBuffer,
    PipelineError,
>)
    ensures
        ({
            let (sw, sh) = (image.width as int, image.height as int);
            let (tw, th) = (screen_size.0 as int, screen_size.1 as int);
            let f = fit_dims(sw, sh, tw, th);
            &&& !inputs_ok(image, tw, th) ==> r == Err::<PixelBuffer, PipelineError>(
                PipelineError::InvalidInput,
            )
            &&& inputs_ok(image, tw, th) && !fit_feasible(sw, sh, tw, th) ==> r == Err::<
                PixelBuffer,
                PipelineError,
            >(PipelineError::TransformFailure)
            &&& inputs_ok(image, tw, th) && fit_feasible(sw, sh, tw, th) ==> r is Ok
            &&& r matches Ok(b) ==> {
                &&& b.width == f.0
                &&& b.height == f.1
                &&& b.valid()
                &&& b.pixels@ == fit_pixels(image.pixels@, sw, sh, tw, th)
                &&& (sw == tw && sh == th) ==> b.pixels@ == image.pixels@
            }
        }),
{
    let (target_w, target_h) = screen_size;
    if !image.is_valid() || target_w == 0 || target_h == 0 {
        return Err(PipelineError::InvalidInput);
    }
    let dims = match plan_fit(image.width, image.height, target_w, target_h) {
        Ok(d) => d,
        Err(_) => return Err(PipelineError::TransformFailure),
    };
    proof {
        lemma_fit_within_target(image.width, image.height, target_w, target_h);
        lemma_same_size_plan(image.width, image.height);
    }
    if !check_resample_fits(image.width, dims.width, dims.height) {
        return Err(PipelineError::TransformFailure);
    }
    Ok(resize(image, dims.width, dims.height))
}

/// The source resampled to the smallest size that covers the screen with its
/// aspect ratio kept, then cropped to the screen around its centre.
pub fn fill_to_size(image: &PixelBuffer, screen_size: (u32, u32)) -> (r: Result<
    PixelBuffer,
    PipelineError,
>)
    ensures
        ({
            let (sw, sh) = (image.width as int, image.height as int);
            let (tw, th) = (screen_size.0 as int, screen_size.1 as int);
            &&& !inputs_ok(image, tw, th) ==> r == Err::<PixelBuffer, PipelineError>(
                PipelineError::InvalidInput,
            )
            &&& inputs_ok(image, tw, th) && !fill_feasible(sw, sh, tw, th) ==> r == Err::<
                PixelBuffer,
                PipelineError,
            >(PipelineError::TransformFailure)
            &&& inputs_ok(image, tw, th) && fill_feasible(sw, sh, tw, th) ==> r is Ok
            &&& r matches Ok(b) ==> {
                &&& b.width == tw
                &&& b.height == th
                &&& b.valid()
                &&& b.pixels@ == fill_pixels(image.pixels@, sw, sh, tw, th)
            }
        }),
{
    let (target_w, target_h) = screen_size;
    if !image.is_valid() || target_w == 0 || target_h == 0 {
        return Err(PipelineError::InvalidInput);
    }
    let dims = match plan_fill(image.width, image.height, target_w, target_h) {
        Ok(d) => d,
        Err(_) => return Err(PipelineError::TransformFailure),
    };
    proof {
        lemma_fill_covers_target(image.width, image.height, target_w, target_h);
    }
    if !check_resample_fits(image.width, dims.width, dims.height) || wide_product(
        target_w,
        target_h,
    ) >= u32::MAX as u128 {
        return Err(PipelineError::TransformFailure);
    }
    let big = resize(image, dims.width, dims.height);
    let rect = plan_centered_crop(big.width, big.height, target_w, target_h);
    proof {
        lemma_centered_crop_inside(big.width, big.height, target_w, target_h);
        assert(big.valid());
    }
    let out = crop(&big, rect.x, rect.y, rect.x + rect.width, rect.y + rect.height);
    Ok(out)
}

/// Blurs a copy of `fill_img` with the radius planned for the screen, then
/// lays `fit_img` over it, centred, with no blending.
pub fn combine_fit_and_fill(
    fit_img: &PixelBuffer,
    fill_img: &PixelBuffer,
    screen_size: (u32, u32),
) -> (r: Result<PixelBuffer, PipelineError>)
    ensures
        ({
            let ok = fit_img.valid() && fill_img.valid() && fit_img.width <= fill_img.width
                && fit_img.height <= fill_img.height;
            let radius = blur_radius(screen_size.0 as int, screen_size.1 as int);
            &&& !ok ==> r == Err::<PixelBuffer, PipelineError>(PipelineError::InvalidInput)
            &&& ok && !can_blur(fill_img.width as int, fill_img.height as int, radius) ==> r
                == Err::<PixelBuffer, PipelineError>(PipelineError::TransformFailure)
            &&& ok && can_blur(fill_img.width as int, fill_img.height as int, radius) ==> r is Ok
            &&& r matches Ok(b) ==> {
                &&& b.width == fill_img.width
                &&& b.height == fill_img.height
                &&& b.valid()
                &&& b.pixels@ == combined_pixels(
                    fit_img.pixels@,
                    fit_img.width as int,
                    fit_img.height as int,
                    fill_img.pixels@,
                    fill_img.width as int,
                    fill_img.height as int,
                    radius,
                )
            }
        }),
{
    if !fit_img.is_valid() || !fill_img.is_valid() || fit_img.width > fill_img.width
        || fit_img.height > fill_img.height {
        return Err(PipelineError::InvalidInput);
    }
    let radius = plan_blur_radius(screen_size.0, screen_size.1);
    let pixels = fill_img.pixels.clone();
    assert(pixels@ =~= fill_img.pixels@);
    let copy = PixelBuffer { width: fill_img.width, height: fill_img.height, pixels };
    let background = if radius == 0 {
        copy
    } else {
        if fill_img.width < 2 || fill_img.height < 2 || wide_product(fill_img.width, fill_img.height)
            * 4 > u32::MAX as u128 {
            return Err(PipelineError::TransformFailure);
        }
        gaussian_blur(copy, radius)
    };
    let at = plan_paste_offset(background.width, background.height, fit_img.width, fit_img.height);
    Ok(composite(&background, fit_img, at))
}

/// Makes the wallpaper for one display: the whole source, scaled to fit and
/// centred, over a blurred copy scaled to cover the display and cropped to
/// it. The result has exactly the target's size; with a source of the
/// target's size it is the source itself.
pub fn compose_wallpaper(source: &PixelBuffer, target: DisplayTarget) -> (r: Result<
    PixelBuffer,
    PipelineError,
>)
    ensures
        composed(source, target, r),
        (source.width == target.width && source.height == target.height) ==> (r matches Ok(b)
            ==> b.pixels@ == source.pixels@),
{
    let screen = (target.width, target.height);
    let fit = match fit_to_size(source, screen) {
        Ok(b) => b,
        Err(e) => return Err(e),
    };
    let fill = match fill_to_size(source, screen) {
        Ok(b) => b,
        Err(e) => return Err(e),
    };
    proof {
        lemma_fit_within_target(source.width, source.height, target.width, target.height);
    }
    let out = combine_fit_and_fill(&fit, &fill, screen);
    proof {
        if source.width == target.width && source.height == target.height {
            lemma_same_size_plan(source.width, source.height);
            if out is Ok {
                lemma_full_cover(
                    blurred_background(
                        fill.pixels@,
                        fill.width as int,
                        fill.height as int,
                        blur_radius(target.width as int, target.height as int),
                    ),
                    fit.pixels@,
                    fit.width as int,
                    fit.height as int,
                );
            }
        }
    }
    out
}

/// With a source of the target's size, the fit and the fill size are the
/// target's, the centred crop starts at the corner, and so does the paste.
pub proof fn lemma_same_size_plan(w: u32, h: u32)
    requires
        w > 0,
        h > 0,
    ensures
        fit_dims(w as int, h as int, w as int, h as int) == (w as int, h as int),
        fill_dims(w as int, h as int, w as int, h as int) == (w as int, h as int),
        centered_origin(w as int, w as int) == 0,
        centered_origin(h as int, h as int) == 0,
        paste_origin(w as int, w as int) == 0,
        paste_origin(h as int, h as int) == 0,
{
    lemma_fit_within_target(w, h, w, h);
    lemma_fill_covers_target(w, h, w, h);
    let (a, b) = (w as int, h as int);
    assert(a * b == b * a) by (nonlinear_arith);
    vstd::arithmetic::div_mod::lemma_div_by_multiple(a, b);
    vstd::arithmetic::div_mod::lemma_div_by_multiple(b, a);
}

/// An overlay of the background's size laid at the corner replaces it.
proof fn lemma_full_cover(bg: Seq<u8>, ov: Seq<u8>, w: int, h: int)
    requires
        w > 0,
        h > 0,
        bg.len() == w * h * 4,
        ov.len() == w * h * 4,
    ensures
        overlaid(bg, w, ov, w, h, 0, 0) == ov,
{
    let o = overlaid(bg, w, ov, w, h, 0, 0);
    assert forall|i: int| 0 <= i < o.len() implies o[i] == ov[i] by {
        let s = w * 4;
        vstd::arithmetic::div_mod::lemma_fundamental_div_mod(i, s);
        assert(s * h == w * h * 4) by (nonlinear_arith)
            requires
                s == w * 4,
        ;
        vstd::arithmetic::div_mod::lemma_multiply_divide_lt(i, s, h);
        assert(i / s * s == s * (i / s)) by (nonlinear_arith);
    }
    assert(o =~= ov);
}

/// Two runs on the same source and target give the same outcome: the same
/// error, or buffers of the same size with the same pixels.
pub proof fn lemma_compose_deterministic(
    source: PixelBuffer,
    target: DisplayTarget,
    first: Result<PixelBuffer, PipelineError>,
    second: Result<PixelBuffer, PipelineError>,
)
    requires
        composed(&source, target, first),
        composed(&source, target, second),
    ensures
        first is Ok <==> second is Ok,
        first is Err ==> first == second,
        first matches Ok(a) ==> (second matches Ok(b) ==> a.width == b.width && a.height
            == b.height && a.pixels@ == b.pixels@),
{
}

} // verus!
