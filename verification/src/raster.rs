//! The image that the editor works on: a rectangle of RGBA pixels held as
//! row-major bytes.

use vstd::prelude::*;
use crate::grid::{pixel_at, pixel_at_index, Grid};
use crate::pixel::Pixel;

verus! {

/// A `width` by `height` image. Its bytes are the pixels row by row from the
/// top, each as red, green, blue, alpha; there are exactly
/// `width * height * 4` of them.
#[derive(Debug)]
pub struct Image {
    pub(crate) width: u32,
    pub(crate) height: u32,
    pub(crate) data: Vec<u8>,
}

impl View for Image {
    type V = Grid;

    open(crate) spec fn view(&self) -> Grid {
        Grid::from_bytes(self.width as nat, self.height as nat, self.data@)
    }
}

/// A cell inside a `width` by `height` rectangle has a row-major index
/// inside `width * height`.
pub proof fn lemma_cell_index(width: int, height: int, x: int, y: int)
    requires
        0 <= x < width,
        0 <= y < height,
    ensures
        0 <= y * width + x < width * height,
        0 <= y * width <= y * width + x,
{
    assert(0 <= y * width && (y + 1) * width <= height * width) by (nonlinear_arith)
        requires
            0 <= y,
            y + 1 <= height,
            0 < width,
    ;
    assert((y + 1) * width == y * width + width) by (nonlinear_arith);
    assert(height * width == width * height) by (nonlinear_arith);
}

/// A row-major index inside `width * height` splits into the column and the
/// row of a cell of the rectangle, and the two give the index back.
pub proof fn lemma_index_cell(width: int, height: int, p: int)
    requires
        0 <= p < width * height,
        0 <= width,
        0 <= height,
    ensures
        0 < width,
        0 <= p % width < width,
        0 <= p / width < height,
        (p / width) * width + p % width == p,
{
    assert(width != 0) by (nonlinear_arith)
        requires
            0 <= p < width * height,
    ;
    vstd::arithmetic::div_mod::lemma_fundamental_div_mod(p, width);
    vstd::arithmetic::div_mod::lemma_mod_bound(p, width);
    assert(width * (p / width) == (p / width) * width) by (nonlinear_arith);
    let q = p / width;
    assert(0 <= q < height) by (nonlinear_arith)
        requires
            0 < width,
            0 <= height,
            0 <= p < width * height,
            q * width <= p,
            p < q * width + width,
    ;
}

impl Image {
    /// There are exactly four bytes for each pixel.
    #[verifier::type_invariant]
    pub(crate) open spec fn inv(self) -> bool {
        self.data@.len() == self.width * self.height * 4
    }

    /// The view of an image is a well-formed grid whose sides fit the
    /// sides of an image.
    pub proof fn lemma_view_wf(&self)
        ensures
            self@.wf(),
            self@.width <= u32::MAX,
            self@.height <= u32::MAX,
    {
    }

    /// Makes an image of bytes laid out row by row, four for each pixel.
    /// The bytes are accepted if and only if there are exactly
    /// `width * height * 4` of them.
    pub fn from_raw(width: u32, height: u32, data: Vec<u8>) -> (out: Option<Image>)
        ensures
            out is Some <==> data@.len() == width * height * 4,
            out matches Some(img) ==> img@ == Grid::from_bytes(
                width as nat,
                height as nat,
                data@,
            ),
    {
        assert(width * height <= 0xffff_ffff * 0xffff_ffff) by (nonlinear_arith)
            requires
                0 <= width <= 0xffff_ffff,
                0 <= height <= 0xffff_ffff,
        ;
        let pixels: u64 = width as u64 * height as u64;
        let len: u64 = data.len() as u64;
        if len % 4 == 0 && len / 4 == pixels {
            Some(Image { width, height, data })
        } else {
            None
        }
    }

    /// The image of the given sides that has no pixels because one of its
    /// sides is 0.
    pub(crate) fn without_pixels(width: u32, height: u32) -> (out: Image)
        requires
            width == 0 || height == 0,
        ensures
            out.width == width,
            out.height == height,
            out.data@.len() == 0,
    {
        assert(width * height * 4 == 0) by (nonlinear_arith)
            requires
                width == 0 || height == 0,
        ;
        Image { width, height, data: Vec::new() }
    }

    /// True if the image has at least one pixel.
    pub fn has_pixels(&self) -> (some: bool)
        ensures
            some == (self@.width > 0 && self@.height > 0),
    {
        self.width > 0 && self.height > 0
    }

    /// The number of columns.
    pub fn width(&self) -> (w: u32)
        ensures
            w == self@.width,
    {
        self.width
    }

    /// The number of rows.
    pub fn height(&self) -> (h: u32)
        ensures
            h == self@.height,
    {
        self.height
    }

    /// The pixel in column `x` of row `y`, if the image has one there.
    pub fn get_pixel(&self, x: u32, y: u32) -> (out: Option<Pixel>)
        ensures
            out == if x < self@.width && y < self@.height {
                Some(self@.pixel(x as int, y as int))
            } else {
                None
            },
    {
        proof {
            use_type_invariant(self);
        }
        if x < self.width && y < self.height {
            proof {
                lemma_cell_index(self.width as int, self.height as int, x as int, y as int);
                assert(self.data@.len() == self.data.len());
            }
            let i: usize = (y as usize * self.width as usize + x as usize) * 4;
            Some(
                Pixel {
                    r: self.data[i],
                    g: self.data[i + 1],
                    b: self.data[i + 2],
                    a: self.data[i + 3],
                },
            )
        } else {
            None
        }
    }

    /// The bytes of the image, row by row.
    pub fn as_raw(&self) -> (bytes: &Vec<u8>)
        ensures
            bytes@ == self@.to_bytes(),
    {
        proof {
            use_type_invariant(self);
            lemma_bytes_of_grid(self.width as nat, self.height as nat, self.data@);
        }
        &self.data
    }

    /// Gives up the image for its bytes.
    pub fn into_raw(self) -> (bytes: Vec<u8>)
        ensures
            bytes@ == self@.to_bytes(),
    {
        proof {
            use_type_invariant(&self);
            lemma_bytes_of_grid(self.width as nat, self.height as nat, self.data@);
        }
        self.data
    }
}

impl Clone for Image {
    fn clone(&self) -> (out: Image)
        ensures
            out@ == self@,
    {
        proof {
            use_type_invariant(self);
        }
        Image { width: self.width, height: self.height, data: self.data.clone() }
    }
}

/// Bytes of the right length are the bytes of the grid they describe.
pub proof fn lemma_bytes_of_grid(width: nat, height: nat, bytes: Seq<u8>)
    requires
        bytes.len() == width * height * 4,
    ensures
        Grid::from_bytes(width, height, bytes).to_bytes() == bytes,
{
    let g = Grid::from_bytes(width, height, bytes);
    let w = width as int;
    let h = height as int;
    assert forall|i: int| 0 <= i < bytes.len() implies #[trigger] g.to_bytes()[i] == bytes[i] by {
        let p = i / 4;
        let c = i % 4;
        assert(0 <= p < w * h);
        lemma_index_cell(w, h, p);
        let x = p % w;
        let y = p / w;
        assert(g.pixel(x, y) == pixel_at(bytes, w, x, y));
        assert(pixel_at(bytes, w, x, y) == pixel_at_index(bytes, p));
        assert(4 * p + c == i);
    }
    assert(g.to_bytes() =~= bytes);
}

/// A well-formed grid is the grid that its bytes describe.
pub proof fn lemma_grid_of_bytes(g: Grid)
    requires
        g.wf(),
    ensures
        g.to_bytes().len() == g.width * g.height * 4,
        Grid::from_bytes(g.width, g.height, g.to_bytes()) == g,
{
    let w = g.width as int;
    let h = g.height as int;
    let bytes = g.to_bytes();
    let back = Grid::from_bytes(g.width, g.height, bytes);
    assert forall|y: int| 0 <= y < h implies #[trigger] back.rows[y] =~= g.rows[y] by {
        assert forall|x: int| 0 <= x < w implies #[trigger] back.rows[y][x] == g.rows[y][x] by {
            lemma_cell_index(w, h, x, y);
            let p = y * w + x;
            assert(0 <= 4 * p && 4 * p + 3 < w * h * 4);
            vstd::arithmetic::div_mod::lemma_fundamental_div_mod_converse(p, w, y, x);
            assert(p / w == y && p % w == x);
            assert((4 * p) / 4 == p && (4 * p + 1) / 4 == p && (4 * p + 2) / 4 == p && (4 * p + 3)
                / 4 == p);
            assert(back.rows[y][x] == pixel_at_index(bytes, p));
            assert(bytes[4 * p] == g.pixel(x, y).channel(0));
            assert(bytes[4 * p + 1] == g.pixel(x, y).channel(1));
            assert(bytes[4 * p + 2] == g.pixel(x, y).channel(2));
            assert(bytes[4 * p + 3] == g.pixel(x, y).channel(3));
        }
    }
    assert(back.rows =~= g.rows);
}

} // verus!
