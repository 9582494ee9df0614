//! What holds of the operations of the editor whatever the image: how the
//! rotations compose, which operations undo themselves or each other, and
//! what a crop can and cannot reach.

use vstd::prelude::*;
use crate::grid::{lemma_grid_equal, Grid};
use crate::pixel::{lemma_luma_bounds, Pixel};
use crate::rotation::Rot;
use crate::synth::{escapes_after, is_fractal_pixel, is_orbit};

verus! {

/// The rotation of `turns` quarter turns, full turns left out.
pub open spec fn rot_of_turns(turns: nat) -> Rot {
    if turns % 4 == 0 {
        Rot::R0
    } else if turns % 4 == 1 {
        Rot::R90
    } else if turns % 4 == 2 {
        Rot::R180
    } else {
        Rot::R270
    }
}

/// Every operation of the editor makes a well-formed grid, of the size of
/// the input or, for a quarter turn, with the sides swapped.
pub proof fn lemma_operations_keep_shape(g: Grid, r: Rot, delta: int)
    requires
        g.wf(),
    ensures
        g.inverted().wf(),
        g.inverted().width == g.width && g.inverted().height == g.height,
        g.brightened(delta).wf(),
        g.brightened(delta).width == g.width && g.brightened(delta).height == g.height,
        g.grayscaled().wf(),
        g.grayscaled().width == g.width && g.grayscaled().height == g.height,
        g.rotated(r).wf(),
        r.quarter_turns() % 2 == 0 ==> g.rotated(r).width == g.width && g.rotated(r).height
            == g.height,
        r.quarter_turns() % 2 == 1 ==> g.rotated(r).width == g.height && g.rotated(r).height
            == g.width,
{
}

/// Rotating by 0 degrees changes nothing.
pub proof fn lemma_rotate_zero_is_identity(g: Grid)
    ensures
        g.rotated(Rot::R0) == g,
{
}

/// Two quarter turns are a half turn, and three are a three-quarter turn.
pub proof fn lemma_quarter_turns_add_up(g: Grid)
    requires
        g.wf(),
    ensures
        g.rotated90().rotated90() == g.rotated180(),
        g.rotated90().rotated90().rotated90() == g.rotated270(),
{
    lemma_grid_equal(g.rotated90().rotated90(), g.rotated180());
    lemma_grid_equal(g.rotated180().rotated90(), g.rotated270());
}

/// Four quarter turns bring back the image: the same size and the same
/// pixel in every cell.
pub proof fn lemma_four_quarter_turns(g: Grid)
    requires
        g.wf(),
    ensures
        g.rotated90().rotated90().rotated90().rotated90() == g,
{
    lemma_quarter_turns_add_up(g);
    lemma_grid_equal(g.rotated270().rotated90(), g);
}

/// Turning by `a` and then by `b` is turning by the sum of the two, full
/// turns left out.
pub proof fn lemma_rotations_compose(g: Grid, a: Rot, b: Rot)
    requires
        g.wf(),
    ensures
        g.rotated(a).rotated(b) == g.rotated(rot_of_turns(a.quarter_turns() + b.quarter_turns())),
{
    lemma_grid_equal(
        g.rotated(a).rotated(b),
        g.rotated(rot_of_turns(a.quarter_turns() + b.quarter_turns())),
    );
}

/// Inverting twice gives back the image exactly.
pub proof fn lemma_invert_twice(g: Grid)
    requires
        g.wf(),
    ensures
        g.inverted().inverted() == g,
{
    lemma_grid_equal(g.inverted().inverted(), g);
}

/// Brightening by `delta` and then by `-delta` gives back the image,
/// provided that no colour channel of it leaves the channel range when
/// `delta` is added.
pub proof fn lemma_brighten_undone(g: Grid, delta: int)
    requires
        g.wf(),
        forall|x: int, y: int|
            0 <= x < g.width && 0 <= y < g.height ==> (#[trigger] g.pixel(x, y)).has_headroom(
                delta,
            ),
    ensures
        g.brightened(delta).brightened(-delta) == g,
{
    assert forall|x: int, y: int| 0 <= x < g.width && 0 <= y < g.height implies g.brightened(
        delta,
    ).brightened(-delta).pixel(x, y) == g.pixel(x, y) by {
        assert(g.pixel(x, y).has_headroom(delta));
    }
    lemma_grid_equal(g.brightened(delta).brightened(-delta), g);
}

/// Brightening saturates and never wraps: no channel moves against the
/// direction of `delta`, a step of 255 or more fills every colour channel,
/// and a step of -255 or less empties it. Alpha stays in every case.
pub proof fn lemma_brighten_saturates(g: Grid, delta: int, x: int, y: int)
    requires
        g.wf(),
        0 <= x < g.width,
        0 <= y < g.height,
    ensures
        ({
            let before = g.pixel(x, y);
            let after = g.brightened(delta).pixel(x, y);
            &&& after.a == before.a
            &&& delta >= 0 ==> after.r >= before.r && after.g >= before.g && after.b >= before.b
            &&& delta <= 0 ==> after.r <= before.r && after.g <= before.g && after.b <= before.b
            &&& delta >= 255 ==> after.r == 255 && after.g == 255 && after.b == 255
            &&& delta <= -255 ==> after.r == 0 && after.g == 0 && after.b == 0
        }),
{
}

/// Brightening by 0 changes nothing.
pub proof fn lemma_brighten_zero_is_identity(g: Grid)
    requires
        g.wf(),
    ensures
        g.brightened(0) == g,
{
    lemma_grid_equal(g.brightened(0), g);
}

/// A grey image is its own grayscale, so converting twice is converting
/// once.
pub proof fn lemma_grayscale_twice(g: Grid)
    requires
        g.wf(),
    ensures
        g.grayscaled().grayscaled() == g.grayscaled(),
{
    let once = g.grayscaled();
    let twice = once.grayscaled();
    assert forall|x: int, y: int| 0 <= x < g.width && 0 <= y < g.height implies twice.pixel(x, y)
        == once.pixel(x, y) by {
        let p = g.pixel(x, y).grayscaled();
        lemma_luma_bounds(p.r, p.g, p.b);
    }
    lemma_grid_equal(twice, once);
}

/// A crop never reaches beyond the image: whatever rectangle is asked for,
/// the result is a well-formed grid no larger than asked for, and the
/// rectangle it was taken from lies inside the image.
pub proof fn lemma_crop_stays_inside(g: Grid, x: nat, y: nat, width: nat, height: nat)
    requires
        g.wf(),
    ensures
        ({
            let c = g.cropped(x, y, width, height);
            &&& c.wf()
            &&& c.width <= width
            &&& c.height <= height
            &&& g.crop_left(x as int) + c.width <= g.width
            &&& g.crop_top(y as int) + c.height <= g.height
            &&& forall|i: int, j: int|
                0 <= i < c.width && 0 <= j < c.height ==> c.pixel(i, j) == g.pixel(
                    g.crop_left(x as int) + i,
                    g.crop_top(y as int) + j,
                )
        }),
{
}

/// A crop whose rectangle lies inside the image has the size asked for.
pub proof fn lemma_crop_inside_is_exact(g: Grid, x: nat, y: nat, width: nat, height: nat)
    requires
        g.wf(),
        x + width <= g.width,
        y + height <= g.height,
    ensures
        g.cropped(x, y, width, height).width == width,
        g.cropped(x, y, width, height).height == height,
        g.crop_left(x as int) == x,
        g.crop_top(y as int) == y,
{
}

/// A crop from the top left corner that asks for at least the whole image
/// gives the whole image.
pub proof fn lemma_crop_of_everything(g: Grid, width: nat, height: nat)
    requires
        g.wf(),
        width >= g.width,
        height >= g.height,
    ensures
        g.cropped(0, 0, width, height) == g,
{
    lemma_grid_equal(g.cropped(0, 0, width, height), g);
}

/// A crop whose corner lies on or beyond the right or the bottom edge has
/// no pixels.
pub proof fn lemma_crop_beyond_is_empty(g: Grid, x: nat, y: nat, width: nat, height: nat)
    requires
        g.wf(),
        x >= g.width || y >= g.height,
    ensures
        g.cropped(x, y, width, height).width == 0 || g.cropped(x, y, width, height).height == 0,
{
}

/// `f` gives at most one result for each argument.
pub open spec fn is_single_valued<A, B, F: Fn(A) -> B>(f: F) -> bool {
    forall|a: A, b1: B, b2: B|
        #![trigger call_ensures(f, (a,), b1), call_ensures(f, (a,), b2)]
        call_ensures(f, (a,), b1) && call_ensures(f, (a,), b2) ==> b1 == b2
}

/// Two paths of an iteration from the same start, under a step that gives
/// one result for each point, agree as far as both go.
proof fn lemma_orbits_agree<Z, S: Fn(Z) -> Z, E: Fn(Z) -> bool>(
    zs1: Seq<Z>,
    zs2: Seq<Z>,
    start: Z,
    step: S,
    escaped: E,
    n1: u8,
    n2: u8,
    k: int,
)
    requires
        is_single_valued(step),
        is_orbit(zs1, start, step, escaped, n1),
        is_orbit(zs2, start, step, escaped, n2),
        0 <= k <= n1,
        k <= n2,
    ensures
        zs1[k] == zs2[k],
    decreases k,
{
    if k > 0 {
        lemma_orbits_agree(zs1, zs2, start, step, escaped, n1, n2, k - 1);
        assert(call_ensures(step, (zs1[k - 1],), zs1[k - 1 + 1]));
        assert(call_ensures(step, (zs2[k - 1],), zs2[k - 1 + 1]));
    }
}

/// The escape time is determined: when the step and the test for escape
/// give one result for each point, an iteration from `start` can take only
/// one number of steps.
pub proof fn lemma_escape_time_is_determined<Z, S: Fn(Z) -> Z, E: Fn(Z) -> bool>(
    start: Z,
    step: S,
    escaped: E,
    n1: u8,
    n2: u8,
)
    requires
        is_single_valued(step),
        is_single_valued(escaped),
        escapes_after(start, step, escaped, n1),
        escapes_after(start, step, escaped, n2),
    ensures
        n1 == n2,
{
    let zs1 = choose|zs: Seq<Z>| is_orbit(zs, start, step, escaped, n1);
    let zs2 = choose|zs: Seq<Z>| is_orbit(zs, start, step, escaped, n2);
    if n1 < n2 {
        lemma_orbits_agree(zs1, zs2, start, step, escaped, n1, n2, n1 as int);
        assert(call_ensures(escaped, (zs1[n1 as int],), true));
        assert(call_ensures(escaped, (zs2[n1 as int],), false));
    } else if n2 < n1 {
        lemma_orbits_agree(zs1, zs2, start, step, escaped, n1, n2, n2 as int);
        assert(call_ensures(escaped, (zs2[n2 as int],), true));
        assert(call_ensures(escaped, (zs1[n2 as int],), false));
    }
}

/// `start` gives at most one point for each cell.
pub open spec fn has_one_start<Z, P: Fn(u32, u32) -> Z>(start: P) -> bool {
    forall|x: u32, y: u32, z1: Z, z2: Z|
        #![trigger call_ensures(start, (x, y), z1), call_ensures(start, (x, y), z2)]
        call_ensures(start, (x, y), z1) && call_ensures(start, (x, y), z2) ==> z1 == z2
}

/// The fractal is determined: when the three functions it is made with give
/// one result for each argument, only one pixel can stand in a cell.
pub proof fn lemma_fractal_pixel_is_determined<
    Z,
    P: Fn(u32, u32) -> Z,
    S: Fn(Z) -> Z,
    E: Fn(Z) -> bool,
>(p1: Pixel, p2: Pixel, x: int, y: int, start: P, step: S, escaped: E)
    requires
        has_one_start(start),
        is_single_valued(step),
        is_single_valued(escaped),
        is_fractal_pixel(p1, x, y, start, step, escaped),
        is_fractal_pixel(p2, x, y, start, step, escaped),
    ensures
        p1 == p2,
{
    let z1 = choose|z: Z|
        call_ensures(start, (x as u32, y as u32), z) && escapes_after(z, step, escaped, p1.g);
    let z2 = choose|z: Z|
        call_ensures(start, (x as u32, y as u32), z) && escapes_after(z, step, escaped, p2.g);
    assert(z1 == z2);
    lemma_escape_time_is_determined(z1, step, escaped, p1.g, p2.g);
}

} // verus!
