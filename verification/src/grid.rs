//! The mathematical model of an image: a rectangle of pixels addressed by
//! column and row, and what each operation of the editor makes of it.

use vstd::prelude::*;
use crate::pixel::Pixel;
use crate::rotation::Rot;

verus! {

/// A `width` by `height` rectangle of pixels. `rows[y][x]` is the pixel in
/// column `x` of row `y`; row 0 is the top row and column 0 the left one.
pub struct Grid {
    pub width: nat,
    pub height: nat,
    pub rows: Seq<Seq<Pixel>>,
}

/// The smaller of two numbers.
pub open spec fn least(a: int, b: int) -> int {
    if a <= b {
        a
    } else {
        b
    }
}

/// The pixel whose four bytes start at pixel index `p` of an RGBA byte
/// sequence.
pub open spec fn pixel_at_index(bytes: Seq<u8>, p: int) -> Pixel {
    Pixel { r: bytes[4 * p], g: bytes[4 * p + 1], b: bytes[4 * p + 2], a: bytes[4 * p + 3] }
}

/// The pixel in column `x` of row `y` of a row-major RGBA byte sequence
/// whose rows are `width` pixels long.
pub open spec fn pixel_at(bytes: Seq<u8>, width: int, x: int, y: int) -> Pixel {
    pixel_at_index(bytes, y * width + x)
}

impl Grid {
    /// Every row is there and has the full width.
    pub open spec fn wf(self) -> bool {
        &&& self.rows.len() == self.height
        &&& forall|y: int| 0 <= y < self.height ==> (#[trigger] self.rows[y]).len() == self.width
    }

    /// The pixel in column `x` of row `y`.
    pub open spec fn pixel(self, x: int, y: int) -> Pixel {
        self.rows[y][x]
    }

    /// The grid whose pixel in column `x` of row `y` is `f(x, y)`.
    pub open spec fn new(width: nat, height: nat, f: spec_fn(int, int) -> Pixel) -> Grid {
        Grid {
            width,
            height,
            rows: Seq::new(height, |y: int| Seq::new(width, |x: int| f(x, y))),
        }
    }

    /// The grid that a row-major RGBA byte sequence describes.
    pub open spec fn from_bytes(width: nat, height: nat, bytes: Seq<u8>) -> Grid {
        Grid::new(width, height, |x: int, y: int| pixel_at(bytes, width as int, x, y))
    }

    /// The row-major RGBA bytes of the grid, four for each pixel.
    pub open spec fn to_bytes(self) -> Seq<u8> {
        Seq::new(
            self.width * self.height * 4,
            |i: int|
                self.pixel((i / 4) % (self.width as int), (i / 4) / (self.width as int)).channel(
                    i % 4,
                ),
        )
    }

    /// The grid of the given size with every pixel equal to `p`.
    pub open spec fn filled(width: nat, height: nat, p: Pixel) -> Grid {
        Grid::new(width, height, |x: int, y: int| p)
    }

    /// The colour negative of the grid.
    pub open spec fn inverted(self) -> Grid {
        Grid::new(self.width, self.height, |x: int, y: int| self.pixel(x, y).inverted())
    }

    /// The grid with `delta` added to every colour channel, saturating.
    pub open spec fn brightened(self, delta: int) -> Grid {
        Grid::new(self.width, self.height, |x: int, y: int| self.pixel(x, y).brightened(delta))
    }

    /// The grid with every pixel replaced by the grey of its luminance.
    pub open spec fn grayscaled(self) -> Grid {
        Grid::new(self.width, self.height, |x: int, y: int| self.pixel(x, y).grayscaled())
    }

    /// The grid turned a quarter turn clockwise: the left column, read from
    /// the bottom up, becomes the top row.
    pub open spec fn rotated90(self) -> Grid {
        Grid::new(
            self.height,
            self.width,
            |x: int, y: int| self.pixel(y, self.height - 1 - x),
        )
    }

    /// The grid turned a half turn.
    pub open spec fn rotated180(self) -> Grid {
        Grid::new(
            self.width,
            self.height,
            |x: int, y: int| self.pixel(self.width - 1 - x, self.height - 1 - y),
        )
    }

    /// The grid turned three quarter turns clockwise.
    pub open spec fn rotated270(self) -> Grid {
        Grid::new(
            self.height,
            self.width,
            |x: int, y: int| self.pixel(self.width - 1 - y, x),
        )
    }

    /// The grid turned by `r`.
    pub open spec fn rotated(self, r: Rot) -> Grid {
        match r {
            Rot::R0 => self,
            Rot::R90 => self.rotated90(),
            Rot::R180 => self.rotated180(),
            Rot::R270 => self.rotated270(),
        }
    }

    /// The left edge of the rectangle that a crop at column `x` keeps: `x`
    /// itself, or the right edge of the grid if `x` lies beyond it.
    pub open spec fn crop_left(self, x: int) -> int {
        least(x, self.width as int)
    }

    /// The top edge of the rectangle that a crop at row `y` keeps.
    pub open spec fn crop_top(self, y: int) -> int {
        least(y, self.height as int)
    }

    /// The width that a crop of `width` columns at column `x` keeps: as much
    /// of `width` as the grid has to the right of the left edge.
    pub open spec fn crop_width(self, x: int, width: int) -> int {
        least(width, self.width - self.crop_left(x))
    }

    /// The height that a crop of `height` rows at row `y` keeps.
    pub open spec fn crop_height(self, y: int, height: int) -> int {
        least(height, self.height - self.crop_top(y))
    }

    /// The part of the grid inside the rectangle with top left corner
    /// `(x, y)` and the given size, after the rectangle has been cut down to
    /// what lies inside the grid.
    pub open spec fn cropped(self, x: nat, y: nat, width: nat, height: nat) -> Grid {
        let left = self.crop_left(x as int);
        let top = self.crop_top(y as int);
        Grid::new(
            self.crop_width(x as int, width as int) as nat,
            self.crop_height(y as int, height as int) as nat,
            |i: int, j: int| self.pixel(left + i, top + j),
        )
    }
}

/// Two well-formed grids of the same size with the same pixel in every cell
/// are the same grid.
pub proof fn lemma_grid_equal(a: Grid, b: Grid)
    requires
        a.wf(),
        b.wf(),
        a.width == b.width,
        a.height == b.height,
        forall|x: int, y: int|
            0 <= x < a.width && 0 <= y < a.height ==> a.pixel(x, y) == b.pixel(x, y),
    ensures
        a == b,
{
    assert forall|y: int| 0 <= y < a.height implies #[trigger] a.rows[y] =~= b.rows[y] by {
        assert forall|x: int| 0 <= x < a.width implies a.rows[y][x] == b.rows[y][x] by {
            assert(a.pixel(x, y) == b.pixel(x, y));
        }
    }
    assert(a.rows =~= b.rows);
}

} // verus!
