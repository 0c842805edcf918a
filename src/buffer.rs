//! RGBA pixel buffers and the image operations applied to them.
//!
//! Resampling, cropping and blurring are done by `photon_rs`; the opaque
//! overwrite that lays one buffer over another is done here.
use vstd::prelude::*;
use photon_rs::PhotonImage;
use crate::geometry::Offset;

verus! {

/// An image held in memory: `pixels` lists the rows top to bottom, each row
/// left to right, four bytes (RGBA) per pixel.
#[derive(Debug)]
pub struct PixelBuffer {
    pub width: u32,
    pub height: u32,
    pub pixels: Vec<u8>,
}

impl PixelBuffer {
    /// Both sides are positive and the pixel bytes match them.
    pub open spec fn valid(&self) -> bool {
        &&& self.width > 0
        &&& self.height > 0
        &&& self.pixels@.len() == self.width * self.height * 4
    }

    /// Whether the buffer is valid.
    pub fn is_valid(&self) -> (r: bool)
        ensures
            r == self.valid(),
    {
        self.width > 0 && self.height > 0 && self.pixels.len() as u128 == wide_product(
            self.width,
            self.height,
        ) * 4
    }
}

/// Pixels of an image resampled with a Lanczos-3 filter to a new size.
pub uninterp spec fn lanczos_resized(
    pixels: Seq<u8>,
    width: nat,
    height: nat,
    new_width: nat,
    new_height: nat,
) -> Seq<u8>;

/// Pixels of an image after a Gaussian blur of the given radius.
pub uninterp spec fn gaussian_blurred(pixels: Seq<u8>, width: nat, height: nat, radius: nat) -> Seq<
    u8,
>;

/// The `w` x `h` window at (`x`, `y`) of an image whose rows are `bw` pixels long.
pub open spec fn cropped(pixels: Seq<u8>, bw: int, x: int, y: int, w: int, h: int) -> Seq<u8> {
    Seq::new(
        (w * h * 4) as nat,
        |i: int| pixels[((y + i / (w * 4)) * bw + x) * 4 + i % (w * 4)],
    )
}

/// Whether byte `i` of a background with rows `bw` pixels long lies under an
/// `ow` x `oh` overlay placed at (`ox`, `oy`).
pub open spec fn covered(i: int, bw: int, ow: int, oh: int, ox: int, oy: int) -> bool {
    let row = i / (bw * 4);
    let col = i % (bw * 4);
    oy <= row < oy + oh && ox * 4 <= col < (ox + ow) * 4
}

/// A background with an overlay laid over it at (`ox`, `oy`): every byte under
/// the overlay is the overlay's, every other byte the background's.
pub open spec fn overlaid(
    bg: Seq<u8>,
    bw: int,
    ov: Seq<u8>,
    ow: int,
    oh: int,
    ox: int,
    oy: int,
) -> Seq<u8> {
    Seq::new(
        bg.len(),
        |i: int|
            if covered(i, bw, ow, oh, ox, oy) {
                ov[(i / (bw * 4) - oy) * (ow * 4) + i % (bw * 4) - ox * 4]
            } else {
                bg[i]
            },
    )
}

/// Whether the resampler can make a `new_width` x `new_height` image from
/// one `width` pixels wide: its working buffers (four 32-bit floats per pixel)
/// must be addressable.
pub open spec fn resample_fits(width: int, new_width: int, new_height: int) -> bool {
    &&& width * new_height * 16 <= isize::MAX
    &&& new_width * new_height * 16 <= isize::MAX
}

/// The product of two sides, in 128 bits so that it cannot overflow even
/// after a few more small factors.
pub(crate) fn wide_product(a: u32, b: u32) -> (r: u128)
    ensures
        r == a * b,
        r < 0x1_0000_0000_0000_0000,
{
    let x = a as u128;
    let y = b as u128;
    assert(x * y < 0x1_0000_0000_0000_0000) by (nonlinear_arith)
        requires
            x <= u32::MAX,
            y <= u32::MAX,
    ;
    x * y
}

pub(crate) fn check_resample_fits(width: u32, new_width: u32, new_height: u32) -> (r: bool)
    ensures
        r == resample_fits(width as int, new_width as int, new_height as int),
{
    let limit = isize::MAX as u128;
    wide_product(width, new_height) * 16 <= limit && wide_product(new_width, new_height) * 16
        <= limit
}

/// Relies on `photon_rs::transform::resize` with the Lanczos-3 filter: the
/// result has exactly the requested size, four bytes per pixel, and is a copy
/// of the input when the size is unchanged.
#[verifier::external_body]
pub(crate) fn resize(src: &PixelBuffer, new_width: u32, new_height: u32) -> (r: PixelBuffer)
    requires
        src.valid(),
        new_width > 0,
        new_height > 0,
        resample_fits(src.width as int, new_width as int, new_height as int),
    ensures
        r.width == new_width,
        r.height == new_height,
        r.pixels@.len() == new_width * new_height * 4,
        r.pixels@ == lanczos_resized(
            src.pixels@,
            src.width as nat,
            src.height as nat,
            new_width as nat,
            new_height as nat,
        ),
        (new_width == src.width && new_height == src.height) ==> r.pixels@ == src.pixels@,
{
    let img = PhotonImage::new(src.pixels.clone(), src.width, src.height);
    let out = photon_rs::transform::resize(
        &img,
        new_width,
        new_height,
        photon_rs::transform::SamplingFilter::Lanczos3,
    );
    PixelBuffer { width: out.get_width(), height: out.get_height(), pixels: out.get_raw_pixels() }
}

/// Whether the cropper can cut a `w` x `h` window: it counts the window's
/// pixels in 32 bits.
pub open spec fn crop_fits(w: int, h: int) -> bool {
    w * h < u32::MAX
}

/// Relies on `photon_rs::transform::crop`: the pixels of the rectangle with
/// corners (`x1`, `y1`) inclusive and (`x2`, `y2`) exclusive, row by row.
#[verifier::external_body]
pub(crate) fn crop(src: &PixelBuffer, x1: u32, y1: u32, x2: u32, y2: u32) -> (r: PixelBuffer)
    requires
        src.valid(),
        x1 < x2 <= src.width,
        y1 < y2 <= src.height,
        crop_fits(x2 - x1, y2 - y1),
    ensures
        r.width == x2 - x1,
        r.height == y2 - y1,
        r.pixels@ == cropped(
            src.pixels@,
            src.width as int,
            x1 as int,
            y1 as int,
            x2 - x1,
            y2 - y1,
        ),
{
    let img = PhotonImage::new(src.pixels.clone(), src.width, src.height);
    let out = photon_rs::transform::crop(&img, x1, y1, x2, y2);
    PixelBuffer { width: out.get_width(), height: out.get_height(), pixels: out.get_raw_pixels() }
}

/// Relies on `photon_rs::conv::gaussian_blur`: the size and the byte count
/// are kept. It computes `width * height * 4` in 32 bits and needs each side
/// to be at least two pixels, hence the bounds.
#[verifier::external_body]
pub(crate) fn gaussian_blur(src: PixelBuffer, radius: u32) -> (r: PixelBuffer)
    requires
        src.valid(),
        src.width >= 2,
        src.height >= 2,
        src.width * src.height * 4 <= u32::MAX,
        radius <= i32::MAX,
    ensures
        r.width == src.width,
        r.height == src.height,
        r.pixels@.len() == src.pixels@.len(),
        r.pixels@ == gaussian_blurred(
            src.pixels@,
            src.width as nat,
            src.height as nat,
            radius as nat,
        ),
{
    let mut img = PhotonImage::new(src.pixels, src.width, src.height);
    photon_rs::conv::gaussian_blur(&mut img, radius as i32);
    PixelBuffer { width: img.get_width(), height: img.get_height(), pixels: img.get_raw_pixels() }
}

/// Lays `overlay` over `background` with its top-left corner at `at`: every
/// covered pixel takes the overlay's four bytes, alpha included, with no
/// blending; every other pixel keeps the background's.
pub fn composite(background: &PixelBuffer, overlay: &PixelBuffer, at: Offset) -> (r: PixelBuffer)
    requires
        background.valid(),
        overlay.valid(),
        at.x + overlay.width <= background.width,
        at.y + overlay.height <= background.height,
    ensures
        r.width == background.width,
        r.height == background.height,
        r.pixels@ == overlaid(
            background.pixels@,
            background.width as int,
            overlay.pixels@,
            overlay.width as int,
            overlay.height as int,
            at.x as int,
            at.y as int,
        ),
{
    let len = background.pixels.len();
    proof {
        let (bw, bh) = (background.width as int, background.height as int);
        assert(bw * 4 <= bw * bh * 4) by (nonlinear_arith)
            requires
                bh >= 1,
                bw >= 0,
        ;
        let (ow, oh) = (overlay.width as int, overlay.height as int);
        assert(ow * 4 <= ow * oh * 4) by (nonlinear_arith)
            requires
                oh >= 1,
                ow >= 0,
        ;
    }
    let stride = background.width as usize * 4;
    let over_stride = overlay.width as usize * 4;
    let left = at.x as usize * 4;
    let top = at.y as usize;
    let rows = overlay.height as usize;
    let ghost target = overlaid(
        background.pixels@,
        background.width as int,
        overlay.pixels@,
        overlay.width as int,
        overlay.height as int,
        at.x as int,
        at.y as int,
    );
    assert(overlay.pixels@.len() == rows * over_stride) by (nonlinear_arith)
        requires
            overlay.pixels@.len() == overlay.width * overlay.height * 4,
            rows == overlay.height,
            over_stride == overlay.width * 4,
    ;
    let over_len = overlay.pixels.len();
    let mut out: Vec<u8> = Vec::with_capacity(len);
    let mut i: usize = 0;
    while i < len
        invariant
            len == background.pixels@.len(),
            stride == background.width * 4,
            stride > 0,
            over_stride == overlay.width * 4,
            left + over_stride <= stride,
            top + rows <= background.height,
            rows == overlay.height,
            overlay.pixels@.len() == rows * over_stride,
            over_len == overlay.pixels@.len(),
            target == overlaid(
                background.pixels@,
                background.width as int,
                overlay.pixels@,
                overlay.width as int,
                overlay.height as int,
                at.x as int,
                at.y as int,
            ),
            left == at.x * 4,
            top == at.y,
            target.len() == len,
            i <= len,
            out@.len() == i,
            forall|j: int| 0 <= j < i ==> out@[j] == target[j],
        decreases len - i,
    {
        let row = i / stride;
        let col = i % stride;
        let b = if top <= row && row < top + rows && left <= col && col < left + over_stride {
            let dr = row - top;
            let dc = col - left;
            assert(dr * over_stride + dc < rows * over_stride) by (nonlinear_arith)
                requires
                    dr < rows,
                    dc < over_stride,
            ;
            overlay.pixels[dr * over_stride + dc]
        } else {
            background.pixels[i]
        };
        assert(b == target[i as int]);
        out.push(b);
        i += 1;
    }
    assert(out@ =~= target);
    PixelBuffer { width: background.width, height: background.height, pixels: out }
}

} // verus!
