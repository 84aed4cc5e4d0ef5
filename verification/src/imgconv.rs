//! Conversion of decoded RGBA images to 1-bit bitmaps.
//!
//! The decoding itself is the `image` crate's; the thresholding of its
//! RGBA bytes into pixels — the part with a right answer — is verified.

use crate::bitmap::Bitmap;
use vstd::prelude::*;

verus! {

#[verifier::external_type_specification]
#[verifier::external_body]
pub struct ExImageError(image::ImageError);

/// Relies on image::load_from_memory to decode the bytes, and on
/// DynamicImage::to_rgba8, ImageBuffer::dimensions and
/// ImageBuffer::into_raw to hand the result over as plain values: the
/// buffer of a `w` by `h` RGBA image holds at least four bytes per pixel.
#[verifier::external_body]
fn decode_rgba(buf: &Vec<u8>) -> (r: Result<(u32, u32, Vec<u8>), image::ImageError>)
    ensures
        r matches Ok(t) ==> t.2@.len() >= 4 * t.0 * t.1,
{
    match image::load_from_memory(buf.as_slice()) {
        Ok(img) => {
            let rgba = img.to_rgba8();
            let (w, h) = rgba.dimensions();
            Ok((w, h, rgba.into_raw()))
        },
        Err(e) => Err(e),
    }
}

/// Why an in-memory image could not become a bitmap.
#[derive(Clone, Copy, PartialEq, Eq, Structural, Debug)]
pub enum ImageConvertError {
    Undecodable,
    TooLarge,
}

/// Whether one RGBA pixel counts as lit under a grayscale threshold: the
/// mean of its three colour channels reaches the threshold.
pub open spec fn pixel_on(r: u8, g: u8, b: u8, threshold: u8) -> bool {
    (r + g + b) / 3 >= threshold
}

proof fn lemma_rgba_index(w: int, h: int, x: int, y: int)
    by (nonlinear_arith)
    requires
        0 <= x < w,
        0 <= y < h,
    ensures
        0 <= 4 * (y * w + x) && 4 * (y * w + x) + 3 < 4 * w * h,
        0 <= y * w + x < w * h,
{
}

/// Thresholds a `w` by `h` RGBA byte buffer, four bytes per pixel in
/// row-major order, into a 1-bit bitmap: a pixel is lit exactly when the
/// mean of its red, green and blue bytes reaches the threshold.
pub fn bitmap_from_rgba(w: usize, h: usize, data: &Vec<u8>, threshold: u8) -> (bm: Bitmap)
    requires
        4 * w * h <= usize::MAX,
        data@.len() >= 4 * w * h,
    ensures
        bm@.wf(),
        bm@.w == w,
        bm@.h == h,
        forall|x: int, y: int|
            0 <= x < w && 0 <= y < h ==> bm@.px(x, y) == pixel_on(
                data@[4 * (y * w + x)],
                data@[4 * (y * w + x) + 1],
                data@[4 * (y * w + x) + 2],
                threshold,
            ),
{
    proof {
        assert((w as int) * (h as int) <= 4 * (w as int) * (h as int)) by (nonlinear_arith)
            requires
                0 <= (w as int),
                0 <= (h as int),
        ;
    }
    let mut bm = Bitmap::new(w, h, false);
    let mut y: usize = 0;
    while y < h
        invariant
            4 * w * h <= usize::MAX,
            data@.len() >= 4 * w * h,
            bm@.wf(),
            bm@.w == w,
            bm@.h == h,
            y <= h,
            forall|x2: int, y2: int|
                0 <= x2 < w && 0 <= y2 < y ==> bm@.px(x2, y2) == pixel_on(
                    data@[4 * (y2 * w + x2)],
                    data@[4 * (y2 * w + x2) + 1],
                    data@[4 * (y2 * w + x2) + 2],
                    threshold,
                ),
        decreases h - y,
    {
        let mut x: usize = 0;
        while x < w
            invariant
                4 * w * h <= usize::MAX,
                data@.len() >= 4 * w * h,
                bm@.wf(),
                bm@.w == w,
                bm@.h == h,
                y < h,
                x <= w,
                forall|x2: int, y2: int|
                    0 <= x2 < w && 0 <= y2 < y ==> bm@.px(x2, y2) == pixel_on(
                        data@[4 * (y2 * w + x2)],
                        data@[4 * (y2 * w + x2) + 1],
                        data@[4 * (y2 * w + x2) + 2],
                        threshold,
                    ),
                forall|x2: int|
                    0 <= x2 < x ==> bm@.px(x2, y as int) == pixel_on(
                        data@[4 * ((y as int) * w + x2)],
                        data@[4 * ((y as int) * w + x2) + 1],
                        data@[4 * ((y as int) * w + x2) + 2],
                        threshold,
                    ),
            decreases w - x,
        {
            proof {
                lemma_rgba_index(w as int, h as int, x as int, y as int);
            }
            let idx: usize = 4 * (y * w + x);
            let r = data[idx];
            let g = data[idx + 1];
            let b = data[idx + 2];
            let mean: u16 = (r as u16 + g as u16 + b as u16) / 3;
            let on = mean >= threshold as u16;
            bm.set(x, y, on);
            x += 1;
        }
        y += 1;
    }
    bm
}

/// Decodes an image held in memory and thresholds it into a bitmap.  An
/// image whose pixel buffer would not fit in the address space is
/// rejected rather than sized down.
pub fn bitmap_from_memory(buf: &Vec<u8>, threshold: u8) -> (r: Result<Bitmap, ImageConvertError>)
    ensures
        r matches Ok(bm) ==> bm@.wf(),
{
    let (w32, h32, bytes) = match decode_rgba(buf) {
        Ok(t) => t,
        Err(_) => { return Err(ImageConvertError::Undecodable); },
    };
    let w = w32 as usize;
    let h = h32 as usize;
    let wu: u128 = w32 as u128;
    let hu: u128 = h32 as u128;
    proof {
        assert((wu as int) * (hu as int) * 4 < 0x100000000000000000) by (nonlinear_arith)
            requires
                0 <= (wu as int) < 0x100000000,
                0 <= (hu as int) < 0x100000000,
        ;
    }
    if wu * hu * 4 > usize::MAX as u128 {
        return Err(ImageConvertError::TooLarge);
    }
    proof {
        assert(4 * (w as int) * (h as int) <= usize::MAX as int) by (nonlinear_arith)
            requires
                (w as u128) as int == w as int,
                (h as u128) as int == h as int,
                ((w as u128) as int) * ((h as u128) as int) * 4 <= usize::MAX as int,
        ;
        assert(bytes@.len() >= 4 * (w as int) * (h as int)) by (nonlinear_arith)
            requires
                bytes@.len() >= 4 * (w32 as int) * (h32 as int),
                w as int == w32 as int,
                h as int == h32 as int,
        ;
    }
    Ok(bitmap_from_rgba(w, h, &bytes, threshold))
}

} // verus!
