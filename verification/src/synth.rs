//! The two generators: an image of one colour, and the escape-time fractal
//! over a colour gradient.

use vstd::prelude::*;
use crate::grid::{lemma_grid_equal, pixel_at, pixel_at_index, Grid};
use crate::pixel::{clamp_channel, Pixel, OPAQUE};
use crate::raster::Image;

verus! {

/// The width of a generated image.
pub const WIDTH: u32 = 800;

/// The height of a generated image.
pub const HEIGHT: u32 = 800;

/// The most steps an escape-time iteration takes.
pub const MAX_STEPS: u8 = 255;

/// The level of the background gradient at coordinate `v`: three tenths of
/// `v`, rounded down, and no more than a channel holds.
pub open spec fn gradient(v: int) -> u8 {
    clamp_channel(3 * v / 10)
}

/// Computes the level of the background gradient at coordinate `v`.
pub fn gradient_at(v: u32) -> (level: u8)
    ensures
        level == gradient(v as int),
{
    let tenths: u64 = v as u64 * 3 / 10;
    if tenths > 255 {
        255
    } else {
        tenths as u8
    }
}

/// `zs` is the path that an escape-time iteration of `n` steps walks from
/// `start`: it holds `n + 1` points, the first is `start`, none of the first
/// `n` has escaped, each is followed by what `step` makes of it, and, unless
/// the step limit stopped the iteration, the last one has escaped.
pub open spec fn is_orbit<Z, S: Fn(Z) -> Z, E: Fn(Z) -> bool>(
    zs: Seq<Z>,
    start: Z,
    step: S,
    escaped: E,
    n: u8,
) -> bool {
    &&& zs.len() == n + 1
    &&& zs[0] == start
    &&& forall|k: int|
        0 <= k < n ==> call_ensures(escaped, (#[trigger] zs[k],), false) && call_ensures(
            step,
            (zs[k],),
            zs[k + 1],
        )
    &&& n < MAX_STEPS ==> call_ensures(escaped, (zs[n as int],), true)
}

/// An escape-time iteration from `start` can take exactly `n` steps.
pub open spec fn escapes_after<Z, S: Fn(Z) -> Z, E: Fn(Z) -> bool>(
    start: Z,
    step: S,
    escaped: E,
    n: u8,
) -> bool {
    exists|zs: Seq<Z>| is_orbit(zs, start, step, escaped, n)
}

/// Runs an escape-time iteration: starting from `start`, applies `step`
/// until the point has escaped or `MAX_STEPS` steps have been taken, and
/// returns the number of steps taken. The point is asked whether it has
/// escaped before each step, and no more once the limit is reached.
pub fn escape_time<Z: Copy, S: Fn(Z) -> Z, E: Fn(Z) -> bool>(start: Z, step: &S, escaped: &E) -> (n:
    u8)
    requires
        forall|z: Z| call_requires(*step, (z,)),
        forall|z: Z| call_requires(*escaped, (z,)),
    ensures
        escapes_after(start, *step, *escaped, n),
{
    let mut z: Z = start;
    let mut n: u8 = 0;
    let ghost mut zs: Seq<Z> = seq![start];
    while n < MAX_STEPS
        invariant_except_break
            zs.len() == n + 1,
            zs[0] == start,
            zs[n as int] == z,
            forall|k: int|
                0 <= k < n ==> call_ensures(*escaped, (#[trigger] zs[k],), false) && call_ensures(
                    *step,
                    (zs[k],),
                    zs[k + 1],
                ),
        invariant
            forall|z: Z| call_requires(*step, (z,)),
            forall|z: Z| call_requires(*escaped, (z,)),
        ensures
            is_orbit(zs, start, *step, *escaped, n),
        decreases MAX_STEPS - n,
    {
        if escaped(z) {
            break ;
        }
        let next: Z = step(z);
        proof {
            let ghost before = zs;
            zs = zs.push(next);
            assert forall|k: int| 0 <= k < n + 1 implies call_ensures(
                *escaped,
                (#[trigger] zs[k],),
                false,
            ) && call_ensures(*step, (zs[k],), zs[k + 1]) by {
                if k < n {
                    assert(zs[k] == before[k]);
                    assert(zs[k + 1] == before[k + 1]);
                }
            }
        }
        z = next;
        n += 1;
    }
    n
}

/// Makes the `WIDTH` by `HEIGHT` image whose every pixel is the opaque
/// colour `(r, g, b)`.
pub fn generate(r: u8, g: u8, b: u8) -> (img: Image)
    ensures
        img@ == Grid::filled(WIDTH as nat, HEIGHT as nat, Pixel::opaque(r, g, b)),
{
    let count: usize = 640000;
    let mut data: Vec<u8> = Vec::new();
    let mut p: usize = 0;
    while p < count
        invariant
            p <= count,
            count == 640000,
            data@.len() == 4 * p,
            forall|q: int|
                0 <= q < p ==> #[trigger] pixel_at_index(data@, q) == Pixel::opaque(r, g, b),
        decreases count - p,
    {
        let ghost before = data@;
        data.push(r);
        data.push(g);
        data.push(b);
        data.push(OPAQUE);
        proof {
            assert forall|q: int| 0 <= q < p + 1 implies #[trigger] pixel_at_index(data@, q)
                == Pixel::opaque(r, g, b) by {
                if q < p {
                    assert(pixel_at_index(data@, q) == pixel_at_index(before, q));
                }
            }
        }
        p += 1;
    }
    assert(WIDTH * HEIGHT * 4 == 4 * count);
    let img = Image { width: WIDTH, height: HEIGHT, data };
    proof {
        assert forall|x: int, y: int| 0 <= x < WIDTH && 0 <= y < HEIGHT implies pixel_at(
            img.data@,
            WIDTH as int,
            x,
            y,
        ) == Pixel::opaque(r, g, b) by {
            assert(pixel_at_index(img.data@, y * 800 + x) == Pixel::opaque(r, g, b));
        }
        lemma_grid_equal(img@, Grid::filled(WIDTH as nat, HEIGHT as nat, Pixel::opaque(r, g, b)));
    }
    img
}

/// What the fractal puts in column `x` of row `y`: the gradient level of the
/// column in red, that of the row in blue, and in green a number of steps
/// that an escape-time iteration from the start point of the cell can take.
pub open spec fn is_fractal_pixel<Z, P: Fn(u32, u32) -> Z, S: Fn(Z) -> Z, E: Fn(Z) -> bool>(
    p: Pixel,
    x: int,
    y: int,
    start: P,
    step: S,
    escaped: E,
) -> bool {
    &&& p.r == gradient(x)
    &&& p.b == gradient(y)
    &&& p.a == OPAQUE
    &&& exists|z: Z|
        call_ensures(start, (x as u32, y as u32), z) && escapes_after(z, step, escaped, p.g)
}

/// Makes the `WIDTH` by `HEIGHT` escape-time fractal. For the pixel in
/// column `x` of row `y`, `start(x, y)` gives the point at which the
/// iteration of `step` begins; the number of steps it takes to escape, at
/// most `MAX_STEPS`, is the green of the pixel. Red rises with the column
/// and blue with the row. The cells are visited row by row from the top.
pub fn fractal<Z: Copy, P: Fn(u32, u32) -> Z, S: Fn(Z) -> Z, E: Fn(Z) -> bool>(
    start: P,
    step: S,
    escaped: E,
) -> (img: Image)
    requires
        forall|x: u32, y: u32| x < WIDTH && y < HEIGHT ==> call_requires(start, (x, y)),
        forall|z: Z| call_requires(step, (z,)),
        forall|z: Z| call_requires(escaped, (z,)),
    ensures
        img@.wf(),
        img@.width == WIDTH,
        img@.height == HEIGHT,
        forall|x: int, y: int|
            0 <= x < WIDTH && 0 <= y < HEIGHT ==> is_fractal_pixel(
                #[trigger] img@.pixel(x, y),
                x,
                y,
                start,
                step,
                escaped,
            ),
{
    let mut data: Vec<u8> = Vec::new();
    let mut y: u32 = 0;
    while y < HEIGHT
        invariant
            y <= HEIGHT,
            data@.len() == 4 * (y * 800),
            forall|x: u32, y: u32| x < WIDTH && y < HEIGHT ==> call_requires(start, (x, y)),
            forall|z: Z| call_requires(step, (z,)),
            forall|z: Z| call_requires(escaped, (z,)),
            forall|i: int, j: int|
                0 <= i < 800 && 0 <= j < y ==> is_fractal_pixel(
                    #[trigger] pixel_at(data@, 800, i, j),
                    i,
                    j,
                    start,
                    step,
                    escaped,
                ),
        decreases HEIGHT - y,
    {
        let mut x: u32 = 0;
        while x < WIDTH
            invariant
                x <= WIDTH,
                y < HEIGHT,
                data@.len() == 4 * (y * 800 + x),
                forall|x: u32, y: u32| x < WIDTH && y < HEIGHT ==> call_requires(start, (x, y)),
                forall|z: Z| call_requires(step, (z,)),
                forall|z: Z| call_requires(escaped, (z,)),
                forall|i: int, j: int|
                    0 <= i < 800 && 0 <= j < y ==> is_fractal_pixel(
                        #[trigger] pixel_at(data@, 800, i, j),
                        i,
                        j,
                        start,
                        step,
                        escaped,
                    ),
                forall|i: int|
                    0 <= i < x ==> is_fractal_pixel(
                        #[trigger] pixel_at(data@, 800, i, y as int),
                        i,
                        y as int,
                        start,
                        step,
                        escaped,
                    ),
            decreases WIDTH - x,
        {
            let red: u8 = gradient_at(x);
            let blue: u8 = gradient_at(y);
            let z: Z = start(x, y);
            let green: u8 = escape_time(z, &step, &escaped);
            let ghost before = data@;
            data.push(red);
            data.push(green);
            data.push(blue);
            data.push(OPAQUE);
            proof {
                assert forall|i: int, j: int| 0 <= i < 800 && 0 <= j < y implies is_fractal_pixel(
                    #[trigger] pixel_at(data@, 800, i, j),
                    i,
                    j,
                    start,
                    step,
                    escaped,
                ) by {
                    assert(pixel_at(data@, 800, i, j) == pixel_at(before, 800, i, j));
                }
                assert forall|i: int| 0 <= i < x + 1 implies is_fractal_pixel(
                    #[trigger] pixel_at(data@, 800, i, y as int),
                    i,
                    y as int,
                    start,
                    step,
                    escaped,
                ) by {
                    if i < x {
                        assert(pixel_at(data@, 800, i, y as int) == pixel_at(
                            before,
                            800,
                            i,
                            y as int,
                        ));
                    } else {
                        let made = Pixel { r: red, g: green, b: blue, a: OPAQUE };
                        assert(pixel_at(data@, 800, i, y as int) == made);
                        assert(call_ensures(start, (i as u32, y), z) && escapes_after(
                            z,
                            step,
                            escaped,
                            made.g,
                        ));
                    }
                }
            }
            x += 1;
        }
        y += 1;
    }
    assert(WIDTH * HEIGHT * 4 == 4 * (HEIGHT * 800));
    let img = Image { width: WIDTH, height: HEIGHT, data };
    proof {
        assert forall|x: int, y: int| 0 <= x < WIDTH && 0 <= y < HEIGHT implies is_fractal_pixel(
            #[trigger] img@.pixel(x, y),
            x,
            y,
            start,
            step,
            escaped,
        ) by {
            assert(img@.pixel(x, y) == pixel_at(img.data@, 800, x, y));
        }
    }
    img
}

} // verus!
