use vstd::prelude::*;
use crate::extrema::octave_ok;
use crate::features::Point2;
use crate::raster::Raster;

verus! {

/// The pixel value of level i at (x, y), as an integer.
pub open spec fn px(oct: Seq<Raster>, i: int, x: int, y: int) -> int {
    oct[i].spec_pixel(x, y) as int
}

/// Twice the central-difference gradient along x.
pub open spec fn g2x(oct: Seq<Raster>, i: int, x: int, y: int) -> int {
    px(oct, i, x + 1, y) - px(oct, i, x - 1, y)
}

/// Twice the central-difference gradient along y.
pub open spec fn g2y(oct: Seq<Raster>, i: int, x: int, y: int) -> int {
    px(oct, i, x, y + 1) - px(oct, i, x, y - 1)
}

/// Twice the central-difference gradient along the interval axis.
pub open spec fn g2s(oct: Seq<Raster>, i: int, x: int, y: int) -> int {
    px(oct, i + 1, x, y) - px(oct, i - 1, x, y)
}

/// Four times the Hessian entry d2/dx2 (an integer second difference).
pub open spec fn h4xx(oct: Seq<Raster>, i: int, x: int, y: int) -> int {
    4 * (px(oct, i, x + 1, y) - 2 * px(oct, i, x, y) + px(oct, i, x - 1, y))
}

/// Four times the Hessian entry d2/dy2.
pub open spec fn h4yy(oct: Seq<Raster>, i: int, x: int, y: int) -> int {
    4 * (px(oct, i, x, y + 1) - 2 * px(oct, i, x, y) + px(oct, i, x, y - 1))
}

/// Four times the Hessian entry d2/ds2.
pub open spec fn h4ss(oct: Seq<Raster>, i: int, x: int, y: int) -> int {
    4 * (px(oct, i + 1, x, y) - 2 * px(oct, i, x, y) + px(oct, i - 1, x, y))
}

/// Four times the cross term d2/dxdy (the four-point stencil).
pub open spec fn h4xy(oct: Seq<Raster>, i: int, x: int, y: int) -> int {
    (px(oct, i, x + 1, y + 1) - px(oct, i, x - 1, y + 1)) - (px(oct, i, x + 1, y - 1) - px(
        oct,
        i,
        x - 1,
        y - 1,
    ))
}

/// Four times the cross term d2/dxds.
pub open spec fn h4xs(oct: Seq<Raster>, i: int, x: int, y: int) -> int {
    (px(oct, i + 1, x + 1, y) - px(oct, i - 1, x + 1, y)) - (px(oct, i + 1, x - 1, y) - px(
        oct,
        i - 1,
        x - 1,
        y,
    ))
}

/// Four times the cross term d2/dyds.
pub open spec fn h4ys(oct: Seq<Raster>, i: int, x: int, y: int) -> int {
    (px(oct, i + 1, x, y + 1) - px(oct, i - 1, x, y + 1)) - (px(oct, i + 1, x, y - 1) - px(
        oct,
        i - 1,
        x,
        y - 1,
    ))
}

/// Adjugate entries of the scaled Hessian (symmetric).
pub open spec fn adj00(oct: Seq<Raster>, i: int, x: int, y: int) -> int {
    h4yy(oct, i, x, y) * h4ss(oct, i, x, y) - h4ys(oct, i, x, y) * h4ys(oct, i, x, y)
}

pub open spec fn adj01(oct: Seq<Raster>, i: int, x: int, y: int) -> int {
    h4xs(oct, i, x, y) * h4ys(oct, i, x, y) - h4xy(oct, i, x, y) * h4ss(oct, i, x, y)
}

pub open spec fn adj02(oct: Seq<Raster>, i: int, x: int, y: int) -> int {
    h4xy(oct, i, x, y) * h4ys(oct, i, x, y) - h4xs(oct, i, x, y) * h4yy(oct, i, x, y)
}

pub open spec fn adj11(oct: Seq<Raster>, i: int, x: int, y: int) -> int {
    h4xx(oct, i, x, y) * h4ss(oct, i, x, y) - h4xs(oct, i, x, y) * h4xs(oct, i, x, y)
}

pub open spec fn adj12(oct: Seq<Raster>, i: int, x: int, y: int) -> int {
    h4xy(oct, i, x, y) * h4xs(oct, i, x, y) - h4xx(oct, i, x, y) * h4ys(oct, i, x, y)
}

pub open spec fn adj22(oct: Seq<Raster>, i: int, x: int, y: int) -> int {
    h4xx(oct, i, x, y) * h4yy(oct, i, x, y) - h4xy(oct, i, x, y) * h4xy(oct, i, x, y)
}

/// Determinant of the scaled Hessian.
pub open spec fn det4(oct: Seq<Raster>, i: int, x: int, y: int) -> int {
    h4xx(oct, i, x, y) * adj00(oct, i, x, y) + h4xy(oct, i, x, y) * adj01(oct, i, x, y) + h4xs(
        oct,
        i,
        x,
        y,
    ) * adj02(oct, i, x, y)
}

/// Components of the adjugate applied to the doubled gradient. The Newton
/// offset is -2 * (nvx, nvy, nvs) / det4, exactly.
pub open spec fn nvx(oct: Seq<Raster>, i: int, x: int, y: int) -> int {
    adj00(oct, i, x, y) * g2x(oct, i, x, y) + adj01(oct, i, x, y) * g2y(oct, i, x, y) + adj02(
        oct,
        i,
        x,
        y,
    ) * g2s(oct, i, x, y)
}

pub open spec fn nvy(oct: Seq<Raster>, i: int, x: int, y: int) -> int {
    adj01(oct, i, x, y) * g2x(oct, i, x, y) + adj11(oct, i, x, y) * g2y(oct, i, x, y) + adj12(
        oct,
        i,
        x,
        y,
    ) * g2s(oct, i, x, y)
}

pub open spec fn nvs(oct: Seq<Raster>, i: int, x: int, y: int) -> int {
    adj02(oct, i, x, y) * g2x(oct, i, x, y) + adj12(oct, i, x, y) * g2y(oct, i, x, y) + adj22(
        oct,
        i,
        x,
        y,
    ) * g2s(oct, i, x, y)
}

/// The dot product of the doubled gradient with the adjugate-gradient
/// vector; the contrast correction is -sdot / (2 * det4), exactly.
pub open spec fn sdot(oct: Seq<Raster>, i: int, x: int, y: int) -> int {
    g2x(oct, i, x, y) * nvx(oct, i, x, y) + g2y(oct, i, x, y) * nvy(oct, i, x, y) + g2s(
        oct,
        i,
        x,
        y,
    ) * nvs(oct, i, x, y)
}

pub open spec fn abs_i(a: int) -> int {
    if a < 0 {
        -a
    } else {
        a
    }
}

/// Division rounded toward zero, the sign-symmetric rounding of the
/// fixed-point position updates.
pub open spec fn trunc_div(a: int, b: int) -> int {
    if (a < 0) == (b < 0) {
        abs_i(a) / abs_i(b)
    } else {
        -(abs_i(a) / abs_i(b))
    }
}

/// The Newton offset has norm at most one half: with offset components
/// -2 * nv / det, the squared norm bound 1/4 clears denominators to this
/// integer test.
pub open spec fn converged_at(oct: Seq<Raster>, i: int, x: int, y: int) -> bool {
    let nx = nvx(oct, i, x, y);
    let ny = nvy(oct, i, x, y);
    let ns = nvs(oct, i, x, y);
    let d = det4(oct, i, x, y);
    16 * (nx * nx + ny * ny + ns * ns) <= d * d
}

/// The contrast |D/255 - sdot/(2 det)| reaches the threshold 3/100;
/// cleared of denominators (510 |det| * 100).
pub open spec fn contrast_ok(oct: Seq<Raster>, i: int, x: int, y: int) -> bool {
    let d = det4(oct, i, x, y);
    100 * abs_i(2 * px(oct, i, x, y) * d - 255 * sdot(oct, i, x, y)) >= 1530 * abs_i(d)
}

/// The edge-response test: the spatial 2x2 Hessian has positive
/// determinant and trace^2/determinant at most (10+1)^2/10, cleared of
/// denominators (the common scaling of the entries cancels).
pub open spec fn edge_ok(oct: Seq<Raster>, i: int, x: int, y: int) -> bool {
    let d2 = adj22(oct, i, x, y);
    let tr = h4xx(oct, i, x, y) + h4yy(oct, i, x, y);
    d2 > 0 && 10 * (tr * tr) <= 121 * d2
}

/// The bounded Newton refinement from fixed-point position (fx, fy, fs)
/// with iters rounds left. Each round solves the local quadratic model at
/// the integer position; a singular system rejects the candidate; a small
/// offset accepts the current position if the contrast and edge tests
/// pass; otherwise the position moves by the truncated fixed-point offset
/// and must stay inside the valid range. A candidate still unconverged
/// after the last round is accepted at its current position.
pub open spec fn refine_from(
    oct: Seq<Raster>,
    w: int,
    h: int,
    fx: int,
    fy: int,
    fs: int,
    iters: nat,
) -> Option<(int, int)>
    decreases iters,
{
    if iters == 0 {
        Some((fx, fy))
    } else {
        let x = fx / 65536;
        let y = fy / 65536;
        let i = fs / 65536;
        let d = det4(oct, i, x, y);
        if d == 0 {
            None
        } else if converged_at(oct, i, x, y) {
            if !contrast_ok(oct, i, x, y) {
                None
            } else if !edge_ok(oct, i, x, y) {
                None
            } else {
                Some((fx, fy))
            }
        } else {
            let fx2 = fx + trunc_div(-2 * nvx(oct, i, x, y) * 65536, d);
            let fy2 = fy + trunc_div(-2 * nvy(oct, i, x, y) * 65536, d);
            let fs2 = fs + trunc_div(-2 * nvs(oct, i, x, y) * 65536, d);
            if fx2 < 65536 || fx2 > (w - 2) * 65536 || fy2 < 65536 || fy2 > (h - 2) * 65536 || fs2
                < 65536 || fs2 > 3 * 65536 {
                None
            } else {
                refine_from(oct, w, h, fx2, fy2, fs2, (iters - 1) as nat)
            }
        }
    }
}

proof fn mul_le(a: int, m: int, b: int, n: int)
    by (nonlinear_arith)
    requires
        0 <= m,
        0 <= n,
        -m <= a <= m,
        -n <= b <= n,
    ensures
        -(m * n) <= a * b <= m * n,
{
}

/// Twice the gradient vector of the local quadratic model, from central
/// differences at the integer position.
pub fn compute_gradients(dog_octave: &Vec<Raster>, interval: usize, x: usize, y: usize) -> (r: (
    i64,
    i64,
    i64,
))
    requires
        octave_ok(dog_octave@),
        1 <= interval,
        interval + 1 < dog_octave@.len(),
        1 <= x,
        x + 1 < dog_octave@[0].width,
        1 <= y,
        y + 1 < dog_octave@[0].height,
    ensures
        r.0 == g2x(dog_octave@, interval as int, x as int, y as int),
        r.1 == g2y(dog_octave@, interval as int, x as int, y as int),
        r.2 == g2s(dog_octave@, interval as int, x as int, y as int),
        -255 <= r.0 <= 255,
        -255 <= r.1 <= 255,
        -255 <= r.2 <= 255,
{
    let level: &Raster = &dog_octave[interval];
    let dx: i64 = level.get(x + 1, y) as i64 - level.get(x - 1, y) as i64;
    let dy: i64 = level.get(x, y + 1) as i64 - level.get(x, y - 1) as i64;
    let up: &Raster = &dog_octave[interval + 1];
    let down: &Raster = &dog_octave[interval - 1];
    let ds: i64 = up.get(x, y) as i64 - down.get(x, y) as i64;
    (dx, dy, ds)
}

/// Four times the Hessian of the local quadratic model, from second
/// differences at the integer position: (xx, yy, ss, xy, xs, ys).
pub fn compute_hessian(dog_octave: &Vec<Raster>, interval: usize, x: usize, y: usize) -> (r: (
    i64,
    i64,
    i64,
    i64,
    i64,
    i64,
))
    requires
        octave_ok(dog_octave@),
        1 <= interval,
        interval + 1 < dog_octave@.len(),
        1 <= x,
        x + 1 < dog_octave@[0].width,
        1 <= y,
        y + 1 < dog_octave@[0].height,
    ensures
        r.0 == h4xx(dog_octave@, interval as int, x as int, y as int),
        r.1 == h4yy(dog_octave@, interval as int, x as int, y as int),
        r.2 == h4ss(dog_octave@, interval as int, x as int, y as int),
        r.3 == h4xy(dog_octave@, interval as int, x as int, y as int),
        r.4 == h4xs(dog_octave@, interval as int, x as int, y as int),
        r.5 == h4ys(dog_octave@, interval as int, x as int, y as int),
        -2040 <= r.0 <= 2040,
        -2040 <= r.1 <= 2040,
        -2040 <= r.2 <= 2040,
        -510 <= r.3 <= 510,
        -510 <= r.4 <= 510,
        -510 <= r.5 <= 510,
{
    let level: &Raster = &dog_octave[interval];
    let up: &Raster = &dog_octave[interval + 1];
    let down: &Raster = &dog_octave[interval - 1];
    let c: i64 = level.get(x, y) as i64;
    let dxx: i64 = 4 * (level.get(x + 1, y) as i64 - 2 * c + level.get(x - 1, y) as i64);
    let dyy: i64 = 4 * (level.get(x, y + 1) as i64 - 2 * c + level.get(x, y - 1) as i64);
    let dss: i64 = 4 * (up.get(x, y) as i64 - 2 * c + down.get(x, y) as i64);
    let dxy: i64 = (level.get(x + 1, y + 1) as i64 - level.get(x - 1, y + 1) as i64) - (level.get(
        x + 1,
        y - 1,
    ) as i64 - level.get(x - 1, y - 1) as i64);
    let dxs: i64 = (up.get(x + 1, y) as i64 - down.get(x + 1, y) as i64) - (up.get(x - 1, y) as i64
        - down.get(x - 1, y) as i64);
    let dys: i64 = (up.get(x, y + 1) as i64 - down.get(x, y + 1) as i64) - (up.get(x, y - 1) as i64
        - down.get(x, y - 1) as i64);
    (dxx, dyy, dss, dxy, dxs, dys)
}

fn trunc_div_i128(a: i128, b: i128) -> (r: i128)
    requires
        b != 0,
        -0x1_0000_0000_0000_0000 <= a <= 0x1_0000_0000_0000_0000,
        -0x1_0000_0000_0000_0000 <= b <= 0x1_0000_0000_0000_0000,
    ensures
        r == trunc_div(a as int, b as int),
        -abs_i(a as int) <= r <= abs_i(a as int),
{
    let aa: u128 = if a < 0 {
        (-a) as u128
    } else {
        a as u128
    };
    let bb: u128 = if b < 0 {
        (-b) as u128
    } else {
        b as u128
    };
    let q: u128 = aa / bb;
    proof {
        assert(aa as int == abs_i(a as int));
        assert(bb as int == abs_i(b as int));
        assert(aa as int / bb as int <= aa as int) by (nonlinear_arith)
            requires
                bb >= 1,
                aa >= 0,
        ;
    }
    let qi: i128 = q as i128;
    if (a < 0) != (b < 0) {
        -qi
    } else {
        qi
    }
}

/// Iterative sub-pixel refinement of the candidate at (x, y) on the given
/// interval of one octave of the difference-of-Gaussians space: at most 5
/// Newton rounds on the local quadratic model, solved exactly; the result
/// is the refined fixed-point location, or None when the candidate is
/// rejected (singular system, low contrast, edge response, or a step that
/// leaves the valid range).
pub fn refine_keypoint(
    dog_space: &Vec<Vec<Raster>>,
    octave: usize,
    interval: usize,
    x: usize,
    y: usize,
) -> (r: Option<Point2>)
    requires
        octave < dog_space@.len(),
        octave_ok(dog_space@[octave as int]@),
        1 <= interval,
        interval + 2 <= dog_space@[octave as int]@.len(),
        1 <= x,
        x + 1 < dog_space@[octave as int]@[0].width,
        1 <= y,
        y + 1 < dog_space@[octave as int]@[0].height,
    ensures
        ({
            let oct = dog_space@[octave as int]@;
            let spec_r = refine_from(
                oct,
                oct[0].width as int,
                oct[0].height as int,
                x * 65536,
                y * 65536,
                interval * 65536,
                5,
            );
            match r {
                Some(pt) => spec_r == Some((pt.x as int, pt.y as int)),
                None => spec_r.is_none(),
            }
        }),
{
    let ghost oct = dog_space@[octave as int]@;
    let octv: &Vec<Raster> = &dog_space[octave];
    let w: usize = octv[0].width;
    let h: usize = octv[0].height;
    let mut fx: i128 = (x as i128) * 65536;
    let mut fy: i128 = (y as i128) * 65536;
    let mut fs: i128 = (interval as i128) * 65536;
    let mut it: usize = 0;
    while it < 5
        invariant
            octave < dog_space@.len(),
            oct == dog_space@[octave as int]@,
            octave_ok(oct),
            octv@ == oct,
            w == oct[0].width,
            h == oct[0].height,
            3 <= w <= 0xffff_ffff,
            3 <= h <= 0xffff_ffff,
            it <= 5,
            65536 <= fx <= (w - 2) * 65536,
            65536 <= fy <= (h - 2) * 65536,
            65536 <= fs <= 3 * 65536,
            refine_from(oct, w as int, h as int, x * 65536, y * 65536, interval * 65536, 5)
                == refine_from(oct, w as int, h as int, fx as int, fy as int, fs as int, (5
                - it) as nat),
        decreases 5 - it,
    {
        let xi: usize = ((fx as u128) / 65536) as usize;
        let yi: usize = ((fy as u128) / 65536) as usize;
        let si: usize = ((fs as u128) / 65536) as usize;
        proof {
            assert(xi as int == fx as int / 65536);
            assert(yi as int == fy as int / 65536);
            assert(si as int == fs as int / 65536);
            assert(1 <= xi as int && xi as int + 1 < w as int);
            assert(1 <= yi as int && yi as int + 1 < h as int);
            assert(1 <= si as int && si as int <= 3);
        }
        let (gx64, gy64, gs64) = compute_gradients(octv, si, xi, yi);
        let (hxx64, hyy64, hss64, hxy64, hxs64, hys64) = compute_hessian(octv, si, xi, yi);
        let gx: i128 = gx64 as i128;
        let gy: i128 = gy64 as i128;
        let gs: i128 = gs64 as i128;
        let xx: i128 = hxx64 as i128;
        let yy: i128 = hyy64 as i128;
        let ss: i128 = hss64 as i128;
        let xy: i128 = hxy64 as i128;
        let xs: i128 = hxs64 as i128;
        let ys: i128 = hys64 as i128;
        proof {
            mul_le(yy as int, 2040, ss as int, 2040);
            mul_le(ys as int, 2040, ys as int, 2040);
            mul_le(xs as int, 2040, ys as int, 2040);
            mul_le(xy as int, 2040, ss as int, 2040);
            mul_le(xy as int, 2040, ys as int, 2040);
            mul_le(xs as int, 2040, yy as int, 2040);
            mul_le(xx as int, 2040, ss as int, 2040);
            mul_le(xs as int, 2040, xs as int, 2040);
            mul_le(xy as int, 2040, xs as int, 2040);
            mul_le(xx as int, 2040, ys as int, 2040);
            mul_le(xx as int, 2040, yy as int, 2040);
            mul_le(xy as int, 2040, xy as int, 2040);
        }
        let a00: i128 = yy * ss - ys * ys;
        let a01: i128 = xs * ys - xy * ss;
        let a02: i128 = xy * ys - xs * yy;
        let a11: i128 = xx * ss - xs * xs;
        let a12: i128 = xy * xs - xx * ys;
        let a22: i128 = xx * yy - xy * xy;
        proof {
            mul_le(xx as int, 2040, a00 as int, 8323200);
            mul_le(xy as int, 2040, a01 as int, 8323200);
            mul_le(xs as int, 2040, a02 as int, 8323200);
        }
        let det: i128 = xx * a00 + xy * a01 + xs * a02;
        proof {
            assert(a00 as int == adj00(oct, si as int, xi as int, yi as int));
            assert(a01 as int == adj01(oct, si as int, xi as int, yi as int));
            assert(a02 as int == adj02(oct, si as int, xi as int, yi as int));
            assert(a11 as int == adj11(oct, si as int, xi as int, yi as int));
            assert(a12 as int == adj12(oct, si as int, xi as int, yi as int));
            assert(a22 as int == adj22(oct, si as int, xi as int, yi as int));
            assert(det as int == det4(oct, si as int, xi as int, yi as int));
        }
        if det == 0 {
            return None;
        }
        proof {
            mul_le(a00 as int, 8323200, gx as int, 255);
            mul_le(a01 as int, 8323200, gy as int, 255);
            mul_le(a02 as int, 8323200, gs as int, 255);
            mul_le(a01 as int, 8323200, gx as int, 255);
            mul_le(a11 as int, 8323200, gy as int, 255);
            mul_le(a12 as int, 8323200, gs as int, 255);
            mul_le(a02 as int, 8323200, gx as int, 255);
            mul_le(a12 as int, 8323200, gy as int, 255);
            mul_le(a22 as int, 8323200, gs as int, 255);
        }
        let nx: i128 = a00 * gx + a01 * gy + a02 * gs;
        let ny: i128 = a01 * gx + a11 * gy + a12 * gs;
        let ns: i128 = a02 * gx + a12 * gy + a22 * gs;
        proof {
            assert(nx as int == nvx(oct, si as int, xi as int, yi as int));
            assert(ny as int == nvy(oct, si as int, xi as int, yi as int));
            assert(ns as int == nvs(oct, si as int, xi as int, yi as int));
            mul_le(nx as int, 6367248000, nx as int, 6367248000);
            mul_le(ny as int, 6367248000, ny as int, 6367248000);
            mul_le(ns as int, 6367248000, ns as int, 6367248000);
            mul_le(det as int, 50938552320, det as int, 50938552320);
        }
        let norm16: i128 = 16 * (nx * nx + ny * ny + ns * ns);
        let det2: i128 = det * det;
        if norm16 <= det2 {
            // converged: contrast and edge tests at the integer position
            let dval: i128 = octv[si].get(xi, yi) as i128;
            proof {
                mul_le(gx as int, 255, nx as int, 6367248000);
                mul_le(gy as int, 255, ny as int, 6367248000);
                mul_le(gs as int, 255, ns as int, 6367248000);
            }
            let sd: i128 = gx * nx + gy * ny + gs * ns;
            proof {
                assert(sd as int == sdot(oct, si as int, xi as int, yi as int));
                assert(dval as int == px(oct, si as int, xi as int, yi as int));
                mul_le(2 * dval as int, 510, det as int, 50938552320);
            }
            let lhs: i128 = (2 * dval) * det - 255 * sd;
            let labs: i128 = if lhs < 0 {
                -lhs
            } else {
                lhs
            };
            let dabs: i128 = if det < 0 {
                -det
            } else {
                det
            };
            proof {
                assert(labs as int == abs_i(
                    2 * px(oct, si as int, xi as int, yi as int) * det4(
                        oct,
                        si as int,
                        xi as int,
                        yi as int,
                    ) - 255 * sdot(oct, si as int, xi as int, yi as int),
                ));
                assert(dabs as int == abs_i(det4(oct, si as int, xi as int, yi as int)));
            }
            if 100 * labs < 1530 * dabs {
                return None;
            }
            let tr: i128 = xx + yy;
            proof {
                mul_le(tr as int, 4080, tr as int, 4080);
            }
            if a22 <= 0 || 10 * (tr * tr) > 121 * a22 {
                return None;
            }
            return Some(Point2 { x: fx as i64, y: fy as i64 });
        }
        let sx: i128 = -2 * nx * 65536;
        let sy: i128 = -2 * ny * 65536;
        let sz: i128 = -2 * ns * 65536;
        let qx: i128 = trunc_div_i128(sx, det);
        let qy: i128 = trunc_div_i128(sy, det);
        let qs: i128 = trunc_div_i128(sz, det);
        let fx2: i128 = fx + qx;
        let fy2: i128 = fy + qy;
        let fs2: i128 = fs + qs;
        if fx2 < 65536 || fx2 > (w as i128 - 2) * 65536 || fy2 < 65536 || fy2 > (h as i128 - 2)
            * 65536 || fs2 < 65536 || fs2 > 3 * 65536 {
            return None;
        }
        fx = fx2;
        fy = fy2;
        fs = fs2;
        it = it + 1;
    }
    Some(Point2 { x: fx as i64, y: fy as i64 })
}

} // verus!
