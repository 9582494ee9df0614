//! The transforms of the editor. Each takes an image and gives the image
//! that the `image` crate makes of it, with a contract that says which.

use vstd::prelude::*;
use crate::backend;
use crate::grid::{lemma_grid_equal, pixel_at, pixel_at_index};
use crate::pixel::{luma, Pixel};
use crate::raster::{lemma_cell_index, Image};
use crate::rotation::Rot;

verus! {

/// Adds `delta` to the red, green and blue of every pixel. A channel that
/// would leave the range 0 to 255 stays at the end it reached; alpha is not
/// touched. A negative `delta` darkens.
pub fn brighten(img: &Image, delta: i32) -> (out: Image)
    ensures
        out@ == img@.brightened(delta as int),
{
    proof {
        use_type_invariant(img);
    }
    if !img.has_pixels() {
        proof {
            lemma_grid_equal(img@, img@.brightened(delta as int));
        }
        return img.clone();
    }
    // Past 255 every channel is already full, so a larger step changes
    // nothing.
    let step: i32 = if delta > 255 {
        255
    } else {
        delta
    };
    let data = backend::brighten(img.width, img.height, &img.data, step);
    let out = Image { width: img.width, height: img.height, data };
    proof {
        let w = img.width as int;
        let h = img.height as int;
        assert forall|x: int, y: int| 0 <= x < w && 0 <= y < h implies pixel_at(out.data@, w, x, y)
            == pixel_at(img.data@, w, x, y).brightened(delta as int) by {
            lemma_cell_index(w, h, x, y);
            let p = y * w + x;
            assert(pixel_at_index(out.data@, p) == pixel_at_index(img.data@, p).brightened(
                step as int,
            ));
        }
        lemma_grid_equal(out@, img@.brightened(delta as int));
    }
    out
}

/// Replaces red, green and blue of every pixel by 255 minus their value.
/// Alpha is not touched.
pub fn invert(img: &mut Image)
    ensures
        final(img)@ == old(img)@.inverted(),
{
    proof {
        use_type_invariant(&*img);
    }
    if !img.has_pixels() {
        proof {
            lemma_grid_equal(img@, img@.inverted());
        }
        return ;
    }
    let data = backend::invert(img.width, img.height, &img.data);
    let ghost before = img.data@;
    img.data = data;
    proof {
        let w = img.width as int;
        let h = img.height as int;
        assert forall|x: int, y: int| 0 <= x < w && 0 <= y < h implies pixel_at(img.data@, w, x, y)
            == pixel_at(before, w, x, y).inverted() by {
            lemma_cell_index(w, h, x, y);
            let p = y * w + x;
            assert(pixel_at_index(img.data@, p) == pixel_at_index(before, p).inverted());
        }
        lemma_grid_equal(img@, old(img)@.inverted());
    }
}

/// Cuts the rectangle with top left corner `(x, y)` and the given size out
/// of the image. A rectangle that reaches beyond the image is not an error:
/// a corner beyond the right or bottom edge is moved back onto that edge,
/// and the size is cut down to what the image has to the right of and below
/// the corner. The result can therefore be narrower and lower than asked
/// for, down to having no pixels at all.
pub fn crop(img: &Image, x: u32, y: u32, width: u32, height: u32) -> (out: Image)
    ensures
        out@ == img@.cropped(x as nat, y as nat, width as nat, height as nat),
{
    proof {
        use_type_invariant(img);
    }
    if !img.has_pixels() {
        // Nothing can be cut out of no pixels, but the sides of the result
        // still follow the rectangle.
        let left: u32 = if x < img.width { x } else { img.width };
        let top: u32 = if y < img.height { y } else { img.height };
        let w: u32 = if width < img.width - left { width } else { img.width - left };
        let h: u32 = if height < img.height - top { height } else { img.height - top };
        let out = Image::without_pixels(w, h);
        proof {
            lemma_grid_equal(out@, img@.cropped(x as nat, y as nat, width as nat, height as nat));
        }
        return out;
    }
    let (w, h, data) = backend::crop(img.width, img.height, &img.data, x, y, width, height);
    let out = Image { width: w, height: h, data };
    proof {
        lemma_grid_equal(out@, img@.cropped(x as nat, y as nat, width as nat, height as nat));
    }
    out
}

/// Turns the image clockwise by `r`. A rotation by `R0` gives a copy.
pub fn rotate(img: &Image, r: Rot) -> (out: Image)
    ensures
        out@ == img@.rotated(r),
{
    proof {
        use_type_invariant(img);
    }
    let ghost w = img.width as int;
    let ghost h = img.height as int;
    if !img.has_pixels() {
        let out = match r {
            Rot::R0 | Rot::R180 => Image::without_pixels(img.width, img.height),
            Rot::R90 | Rot::R270 => Image::without_pixels(img.height, img.width),
        };
        proof {
            lemma_grid_equal(out@, img@.rotated(r));
        }
        return out;
    }
    match r {
        Rot::R0 => img.clone(),
        Rot::R90 => {
            let (width, height, data) = backend::rotate90(img.width, img.height, &img.data);
            assert(data@.len() == width * height * 4) by (nonlinear_arith)
                requires
                    data@.len() == w * h * 4,
                    width == h,
                    height == w,
            ;
            let out = Image { width, height, data };
            proof {
                assert forall|x: int, y: int| 0 <= x < h && 0 <= y < w implies pixel_at(
                    out.data@,
                    h,
                    x,
                    y,
                ) == pixel_at(img.data@, w, y, h - 1 - x) by {
                    assert(pixel_at(out.data@, h, h - 1 - (h - 1 - x), y) == pixel_at(
                        img.data@,
                        w,
                        y,
                        h - 1 - x,
                    ));
                }
                lemma_grid_equal(out@, img@.rotated90());
            }
            out
        },
        Rot::R180 => {
            let (width, height, data) = backend::rotate180(img.width, img.height, &img.data);
            let out = Image { width, height, data };
            proof {
                assert forall|x: int, y: int| 0 <= x < w && 0 <= y < h implies pixel_at(
                    out.data@,
                    w,
                    x,
                    y,
                ) == pixel_at(img.data@, w, w - 1 - x, h - 1 - y) by {
                    assert(pixel_at(out.data@, w, w - 1 - (w - 1 - x), h - 1 - (h - 1 - y))
                        == pixel_at(img.data@, w, w - 1 - x, h - 1 - y));
                }
                lemma_grid_equal(out@, img@.rotated180());
            }
            out
        },
        Rot::R270 => {
            let (width, height, data) = backend::rotate270(img.width, img.height, &img.data);
            assert(data@.len() == width * height * 4) by (nonlinear_arith)
                requires
                    data@.len() == w * h * 4,
                    width == h,
                    height == w,
            ;
            let out = Image { width, height, data };
            proof {
                assert forall|x: int, y: int| 0 <= x < h && 0 <= y < w implies pixel_at(
                    out.data@,
                    h,
                    x,
                    y,
                ) == pixel_at(img.data@, w, w - 1 - y, x) by {
                    assert(pixel_at(out.data@, h, x, w - 1 - (w - 1 - y)) == pixel_at(
                        img.data@,
                        w,
                        w - 1 - y,
                        x,
                    ));
                }
                lemma_grid_equal(out@, img@.rotated270());
            }
            out
        },
    }
}

/// Replaces the colour of every pixel by the grey of the same luminance,
/// `(2126 r + 7152 g + 722 b) / 10000` rounded down. The result keeps the
/// layout of the input: the grey level stands in red, green and blue alike,
/// and alpha is not touched.
pub fn grayscale(img: &Image) -> (out: Image)
    ensures
        out@ == img@.grayscaled(),
{
    proof {
        use_type_invariant(img);
    }
    if !img.has_pixels() {
        proof {
            lemma_grid_equal(img@, img@.grayscaled());
        }
        return img.clone();
    }
    let levels = backend::grayscale(img.width, img.height, &img.data);
    let count: usize = levels.len() / 2;
    let mut data: Vec<u8> = Vec::new();
    let mut p: usize = 0;
    while p < count
        invariant
            p <= count,
            levels@.len() == 2 * count,
            2 * count <= usize::MAX,
            data@.len() == 4 * p,
            forall|q: int|
                0 <= q < p ==> #[trigger] pixel_at_index(data@, q) == (Pixel {
                    r: levels@[2 * q],
                    g: levels@[2 * q],
                    b: levels@[2 * q],
                    a: levels@[2 * q + 1],
                }),
        decreases count - p,
    {
        let level: u8 = levels[2 * p];
        let alpha: u8 = levels[2 * p + 1];
        let ghost before = data@;
        data.push(level);
        data.push(level);
        data.push(level);
        data.push(alpha);
        proof {
            assert forall|q: int| 0 <= q < p + 1 implies #[trigger] pixel_at_index(data@, q) == (
            Pixel {
                r: levels@[2 * q],
                g: levels@[2 * q],
                b: levels@[2 * q],
                a: levels@[2 * q + 1],
            }) by {
                if q < p {
                    assert(pixel_at_index(data@, q) == pixel_at_index(before, q));
                }
            }
        }
        p += 1;
    }
    let out = Image { width: img.width, height: img.height, data };
    proof {
        let w = img.width as int;
        let h = img.height as int;
        assert forall|x: int, y: int| 0 <= x < w && 0 <= y < h implies pixel_at(out.data@, w, x, y)
            == pixel_at(img.data@, w, x, y).grayscaled() by {
            lemma_cell_index(w, h, x, y);
            let q = y * w + x;
            assert(backend::luma_alpha_at(levels@, q) == (
                luma(
                    pixel_at_index(img.data@, q).r,
                    pixel_at_index(img.data@, q).g,
                    pixel_at_index(img.data@, q).b,
                ),
                pixel_at_index(img.data@, q).a,
            ));
            assert(pixel_at_index(out.data@, q) == (Pixel {
                r: levels@[2 * q],
                g: levels@[2 * q],
                b: levels@[2 * q],
                a: levels@[2 * q + 1],
            }));
        }
        lemma_grid_equal(out@, img@.grayscaled());
    }
    out
}

} // verus!
