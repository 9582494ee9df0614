//! The calls into the `image` crate. Each function here hands the bytes of
//! an RGBA image to one method of `image::DynamicImage` and hands the bytes
//! of the result back. Their contracts are taken on trust from the source of
//! that crate; everything else in the library is proved from them.
//!
//! The crate computes the length of a buffer as four times the width times
//! the height, in that order, and panics if a step of it does not fit a
//! `usize`. With at least one pixel in the image every step is at most the
//! number of bytes at hand, so all functions here ask for an image that has
//! pixels; the callers deal with the others themselves.

use vstd::prelude::*;
use image::{DynamicImage, RgbaImage};
use crate::grid::{least, pixel_at, pixel_at_index};
use crate::pixel::luma;

verus! {

/// The luminance and the alpha of pixel `p` of a byte sequence that holds
/// two bytes for each pixel.
pub open spec fn luma_alpha_at(bytes: Seq<u8>, p: int) -> (u8, u8) {
    (bytes[2 * p], bytes[2 * p + 1])
}

/// `image::DynamicImage::brighten` on an RGBA image. Trusted: the result has
/// the size of the input, and each of its pixels is the pixel at the same
/// place with `delta` added to red, green and blue, cut off at 0 and 255,
/// and alpha untouched. The method adds in `i32` without a check, so `delta`
/// must leave room for the largest channel value.
#[verifier::external_body]
pub(crate) fn brighten(width: u32, height: u32, data: &Vec<u8>, delta: i32) -> (out: Vec<u8>)
    requires
        width > 0,
        height > 0,
        data@.len() == width * height * 4,
        delta + 255 <= i32::MAX,
    ensures
        out@.len() == data@.len(),
        forall|p: int|
            #![trigger pixel_at_index(out@, p)]
            #![trigger pixel_at_index(data@, p)]
            0 <= p < width * height ==> pixel_at_index(out@, p) == pixel_at_index(
                data@,
                p,
            ).brightened(delta as int),
{
    let buffer = RgbaImage::from_raw(width, height, data.clone()).unwrap();
    DynamicImage::ImageRgba8(buffer).brighten(delta).into_bytes()
}

/// `image::DynamicImage::invert` on an RGBA image. Trusted: the result has
/// the size of the input, and each of its pixels is the pixel at the same
/// place with red, green and blue replaced by 255 minus their value, and
/// alpha untouched.
#[verifier::external_body]
pub(crate) fn invert(width: u32, height: u32, data: &Vec<u8>) -> (out: Vec<u8>)
    requires
        width > 0,
        height > 0,
        data@.len() == width * height * 4,
    ensures
        out@.len() == data@.len(),
        forall|p: int|
            #![trigger pixel_at_index(out@, p)]
            #![trigger pixel_at_index(data@, p)]
            0 <= p < width * height ==> pixel_at_index(out@, p) == pixel_at_index(
                data@,
                p,
            ).inverted(),
{
    let buffer = RgbaImage::from_raw(width, height, data.clone()).unwrap();
    let mut img = DynamicImage::ImageRgba8(buffer);
    img.invert();
    img.into_bytes()
}

/// `image::DynamicImage::grayscale` on an RGBA image. Trusted: the result
/// holds two bytes for each pixel of the input, in the same order: the
/// luminance of its colour, which is `(2126 r + 7152 g + 722 b) / 10000`
/// rounded down, and its alpha.
#[verifier::external_body]
pub(crate) fn grayscale(width: u32, height: u32, data: &Vec<u8>) -> (out: Vec<u8>)
    requires
        width > 0,
        height > 0,
        data@.len() == width * height * 4,
    ensures
        out@.len() == width * height * 2,
        forall|p: int|
            #![trigger luma_alpha_at(out@, p)]
            #![trigger pixel_at_index(data@, p)]
            0 <= p < width * height ==> luma_alpha_at(out@, p) == (
                luma(
                    pixel_at_index(data@, p).r,
                    pixel_at_index(data@, p).g,
                    pixel_at_index(data@, p).b,
                ),
                pixel_at_index(data@, p).a,
            ),
{
    let buffer = RgbaImage::from_raw(width, height, data.clone()).unwrap();
    DynamicImage::ImageRgba8(buffer).grayscale().into_bytes()
}

/// `image::DynamicImage::crop` on an RGBA image. Trusted: the corner
/// `(x, y)` is first moved back onto the right and bottom edge if it lies
/// beyond them, the size `(w, h)` is cut down to what the image has to the
/// right of and below that corner, and the result, given as its width, its
/// height and its bytes, holds the pixels of that rectangle.
#[verifier::external_body]
pub(crate) fn crop(width: u32, height: u32, data: &Vec<u8>, x: u32, y: u32, w: u32, h: u32) -> (out:
    (u32, u32, Vec<u8>))
    requires
        width > 0,
        height > 0,
        data@.len() == width * height * 4,
    ensures
        out.0 == least(w as int, width - least(x as int, width as int)),
        out.1 == least(h as int, height - least(y as int, height as int)),
        out.2@.len() == out.0 * out.1 * 4,
        forall|i: int, j: int|
            #![trigger pixel_at(out.2@, out.0 as int, i, j)]
            0 <= i < out.0 && 0 <= j < out.1 ==> pixel_at(out.2@, out.0 as int, i, j) == pixel_at(
                data@,
                width as int,
                least(x as int, width as int) + i,
                least(y as int, height as int) + j,
            ),
{
    let buffer = RgbaImage::from_raw(width, height, data.clone()).unwrap();
    let cut = DynamicImage::ImageRgba8(buffer).crop(x, y, w, h);
    (cut.width(), cut.height(), cut.into_bytes())
}

/// `image::DynamicImage::rotate90` on an RGBA image. Trusted: the result,
/// given as its width, its height and its bytes, has the sides of the input
/// swapped, and the pixel in column `x` of row `y` of the input stands in
/// column `height - 1 - y` of row `x`.
#[verifier::external_body]
pub(crate) fn rotate90(width: u32, height: u32, data: &Vec<u8>) -> (out: (u32, u32, Vec<u8>))
    requires
        width > 0,
        height > 0,
        data@.len() == width * height * 4,
    ensures
        out.0 == height,
        out.1 == width,
        out.2@.len() == data@.len(),
        forall|x: int, y: int|
            #![trigger pixel_at(data@, width as int, x, y)]
            0 <= x < width && 0 <= y < height ==> pixel_at(
                out.2@,
                height as int,
                height - 1 - y,
                x,
            ) == pixel_at(data@, width as int, x, y),
{
    let buffer = RgbaImage::from_raw(width, height, data.clone()).unwrap();
    let turned = DynamicImage::ImageRgba8(buffer).rotate90();
    (turned.width(), turned.height(), turned.into_bytes())
}

/// `image::DynamicImage::rotate180` on an RGBA image. Trusted: the result
/// has the sides of the input, and the pixel in column `x` of row `y` of the
/// input stands in column `width - 1 - x` of row `height - 1 - y`.
#[verifier::external_body]
pub(crate) fn rotate180(width: u32, height: u32, data: &Vec<u8>) -> (out: (u32, u32, Vec<u8>))
    requires
        width > 0,
        height > 0,
        data@.len() == width * height * 4,
    ensures
        out.0 == width,
        out.1 == height,
        out.2@.len() == data@.len(),
        forall|x: int, y: int|
            #![trigger pixel_at(data@, width as int, x, y)]
            0 <= x < width && 0 <= y < height ==> pixel_at(
                out.2@,
                width as int,
                width - 1 - x,
                height - 1 - y,
            ) == pixel_at(data@, width as int, x, y),
{
    let buffer = RgbaImage::from_raw(width, height, data.clone()).unwrap();
    let turned = DynamicImage::ImageRgba8(buffer).rotate180();
    (turned.width(), turned.height(), turned.into_bytes())
}

/// `image::DynamicImage::rotate270` on an RGBA image. Trusted: the result
/// has the sides of the input swapped, and the pixel in column `x` of row
/// `y` of the input stands in column `y` of row `width - 1 - x`.
#[verifier::external_body]
pub(crate) fn rotate270(width: u32, height: u32, data: &Vec<u8>) -> (out: (u32, u32, Vec<u8>))
    requires
        width > 0,
        height > 0,
        data@.len() == width * height * 4,
    ensures
        out.0 == height,
        out.1 == width,
        out.2@.len() == data@.len(),
        forall|x: int, y: int|
            #![trigger pixel_at(data@, width as int, x, y)]
            0 <= x < width && 0 <= y < height ==> pixel_at(
                out.2@,
                height as int,
                y,
                width - 1 - x,
            ) == pixel_at(data@, width as int, x, y),
{
    let buffer = RgbaImage::from_raw(width, height, data.clone()).unwrap();
    let turned = DynamicImage::ImageRgba8(buffer).rotate270();
    (turned.width(), turned.height(), turned.into_bytes())
}

} // verus!
