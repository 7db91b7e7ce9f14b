use vstd::prelude::*;
use crate::raster::{offset_coord, Raster};

verus! {

/// Offset i of the fixed 16-sample discrete circle of radius 3 around a
/// candidate pixel, Bresenham-style.
pub open spec fn circle_offset(i: int) -> (int, int) {
    if i == 0 {
        (0, 3)
    } else if i == 1 {
        (1, 3)
    } else if i == 2 {
        (2, 2)
    } else if i == 3 {
        (3, 1)
    } else if i == 4 {
        (3, 0)
    } else if i == 5 {
        (3, -1)
    } else if i == 6 {
        (2, -2)
    } else if i == 7 {
        (1, -3)
    } else if i == 8 {
        (0, -3)
    } else if i == 9 {
        (-1, -3)
    } else if i == 10 {
        (-2, -2)
    } else if i == 11 {
        (-3, -1)
    } else if i == 12 {
        (-3, 0)
    } else if i == 13 {
        (-3, 1)
    } else if i == 14 {
        (-2, 2)
    } else {
        (-1, 3)
    }
}

/// Every circle offset lies within the radius-3 box.
pub proof fn lemma_circle_offset_bounds(i: int)
    requires
        0 <= i < 16,
    ensures
        -3 <= circle_offset(i).0 <= 3,
        -3 <= circle_offset(i).1 <= 3,
{
}

fn circle_offset_at(i: usize) -> (r: (i32, i32))
    requires
        i < 16,
    ensures
        r.0 as int == circle_offset(i as int).0,
        r.1 as int == circle_offset(i as int).1,
{
    if i == 0 {
        (0, 3)
    } else if i == 1 {
        (1, 3)
    } else if i == 2 {
        (2, 2)
    } else if i == 3 {
        (3, 1)
    } else if i == 4 {
        (3, 0)
    } else if i == 5 {
        (3, -1)
    } else if i == 6 {
        (2, -2)
    } else if i == 7 {
        (1, -3)
    } else if i == 8 {
        (0, -3)
    } else if i == 9 {
        (-1, -3)
    } else if i == 10 {
        (-2, -2)
    } else if i == 11 {
        (-3, -1)
    } else if i == 12 {
        (-3, 0)
    } else if i == 13 {
        (-3, 1)
    } else if i == 14 {
        (-2, 2)
    } else {
        (-1, 3)
    }
}

/// Circle sample i around (x, y) is darker than the center value p by more
/// than the threshold t.
pub open spec fn sample_darker(img: Raster, x: int, y: int, p: u8, t: u8, i: int) -> bool {
    let v = img.spec_pixel(x + circle_offset(i).0, y + circle_offset(i).1);
    v < p && p - v > t
}

/// Circle sample i around (x, y) is brighter than the center value p by
/// more than the threshold t.
pub open spec fn sample_brighter(img: Raster, x: int, y: int, p: u8, t: u8, i: int) -> bool {
    let v = img.spec_pixel(x + circle_offset(i).0, y + circle_offset(i).1);
    v > p && v - p > t
}

/// The len circle samples starting at position s (wrapping around the
/// 16-sample circle) are all darker.
pub open spec fn run_darker(img: Raster, x: int, y: int, p: u8, t: u8, s: int, len: nat) -> bool
    decreases len,
{
    if len == 0 {
        true
    } else {
        sample_darker(img, x, y, p, t, s % 16) && run_darker(
            img,
            x,
            y,
            p,
            t,
            s + 1,
            (len - 1) as nat,
        )
    }
}

/// The len circle samples starting at position s (wrapping around the
/// 16-sample circle) are all brighter.
pub open spec fn run_brighter(img: Raster, x: int, y: int, p: u8, t: u8, s: int, len: nat) -> bool
    decreases len,
{
    if len == 0 {
        true
    } else {
        sample_brighter(img, x, y, p, t, s % 16) && run_brighter(
            img,
            x,
            y,
            p,
            t,
            s + 1,
            (len - 1) as nat,
        )
    }
}

/// FAST corner test: some run of at least 9 consecutive circle samples,
/// wrapping around, is entirely darker or entirely brighter than the
/// center value p by more than the threshold t.
pub open spec fn is_corner_spec(img: Raster, x: int, y: int, p: u8, t: u8) -> bool {
    (exists|s: int| 0 <= s < 16 && run_darker(img, x, y, p, t, s, 9)) || (exists|s: int|
        0 <= s < 16 && run_brighter(img, x, y, p, t, s, 9))
}

proof fn lemma_run_darker_extend(img: Raster, x: int, y: int, p: u8, t: u8, s: int, n: nat)
    requires
        run_darker(img, x, y, p, t, s, n),
        sample_darker(img, x, y, p, t, (s + n) % 16),
    ensures
        run_darker(img, x, y, p, t, s, n + 1),
    decreases n,
{
    if n == 0 {
        assert((s + 0) % 16 == s % 16);
        assert(sample_darker(img, x, y, p, t, s % 16));
        assert(run_darker(img, x, y, p, t, s + 1, 0));
        assert(run_darker(img, x, y, p, t, s, 1));
    } else {
        assert((s + 1 + (n - 1)) % 16 == (s + n) % 16);
        lemma_run_darker_extend(img, x, y, p, t, s + 1, (n - 1) as nat);
        assert(run_darker(img, x, y, p, t, s + 1, ((n - 1) as nat) + 1));
        assert(((n - 1) as nat) + 1 == n as int);
        assert(run_darker(img, x, y, p, t, s + 1, n));
        assert(run_darker(img, x, y, p, t, s, n + 1));
    }
}

proof fn lemma_run_brighter_extend(img: Raster, x: int, y: int, p: u8, t: u8, s: int, n: nat)
    requires
        run_brighter(img, x, y, p, t, s, n),
        sample_brighter(img, x, y, p, t, (s + n) % 16),
    ensures
        run_brighter(img, x, y, p, t, s, n + 1),
    decreases n,
{
    if n == 0 {
        assert((s + 0) % 16 == s % 16);
        assert(sample_brighter(img, x, y, p, t, s % 16));
        assert(run_brighter(img, x, y, p, t, s + 1, 0));
        assert(run_brighter(img, x, y, p, t, s, 1));
    } else {
        assert((s + 1 + (n - 1)) % 16 == (s + n) % 16);
        lemma_run_brighter_extend(img, x, y, p, t, s + 1, (n - 1) as nat);
        assert(run_brighter(img, x, y, p, t, s + 1, ((n - 1) as nat) + 1));
        assert(((n - 1) as nat) + 1 == n as int);
        assert(run_brighter(img, x, y, p, t, s + 1, n));
        assert(run_brighter(img, x, y, p, t, s, n + 1));
    }
}

proof fn lemma_run_darker_index(img: Raster, x: int, y: int, p: u8, t: u8, s: int, n: nat, j: int)
    requires
        run_darker(img, x, y, p, t, s, n),
        0 <= j < n,
    ensures
        sample_darker(img, x, y, p, t, (s + j) % 16),
    decreases n,
{
    if j > 0 {
        lemma_run_darker_index(img, x, y, p, t, s + 1, (n - 1) as nat, j - 1);
    }
}

proof fn lemma_run_brighter_index(img: Raster, x: int, y: int, p: u8, t: u8, s: int, n: nat, j: int)
    requires
        run_brighter(img, x, y, p, t, s, n),
        0 <= j < n,
    ensures
        sample_brighter(img, x, y, p, t, (s + j) % 16),
    decreases n,
{
    if j > 0 {
        lemma_run_brighter_index(img, x, y, p, t, s + 1, (n - 1) as nat, j - 1);
    }
}

proof fn lemma_run_darker_mod(img: Raster, x: int, y: int, p: u8, t: u8, s: int, n: nat)
    requires
        run_darker(img, x, y, p, t, s, n),
    ensures
        run_darker(img, x, y, p, t, s % 16, n),
    decreases n,
{
    if n > 0 {
        vstd::arithmetic::div_mod::lemma_mod_twice(s, 16);
        lemma_run_darker_mod(img, x, y, p, t, s + 1, (n - 1) as nat);
        // the two tails start at positions congruent mod 16
        lemma_run_darker_shift(img, x, y, p, t, s + 1, (s % 16) + 1, (n - 1) as nat);
    }
}

proof fn lemma_run_brighter_mod(img: Raster, x: int, y: int, p: u8, t: u8, s: int, n: nat)
    requires
        run_brighter(img, x, y, p, t, s, n),
    ensures
        run_brighter(img, x, y, p, t, s % 16, n),
    decreases n,
{
    if n > 0 {
        vstd::arithmetic::div_mod::lemma_mod_twice(s, 16);
        lemma_run_brighter_mod(img, x, y, p, t, s + 1, (n - 1) as nat);
        lemma_run_brighter_shift(img, x, y, p, t, s + 1, (s % 16) + 1, (n - 1) as nat);
    }
}

/// Runs only depend on the start position modulo 16.
proof fn lemma_run_darker_shift(img: Raster, x: int, y: int, p: u8, t: u8, s1: int, s2: int, n: nat)
    requires
        run_darker(img, x, y, p, t, s1, n),
        s1 % 16 == s2 % 16,
    ensures
        run_darker(img, x, y, p, t, s2, n),
    decreases n,
{
    if n > 0 {
        vstd::arithmetic::div_mod::lemma_add_mod_noop(s1, 1, 16);
        vstd::arithmetic::div_mod::lemma_add_mod_noop(s2, 1, 16);
        lemma_run_darker_shift(img, x, y, p, t, s1 + 1, s2 + 1, (n - 1) as nat);
    }
}

proof fn lemma_run_brighter_shift(
    img: Raster,
    x: int,
    y: int,
    p: u8,
    t: u8,
    s1: int,
    s2: int,
    n: nat,
)
    requires
        run_brighter(img, x, y, p, t, s1, n),
        s1 % 16 == s2 % 16,
    ensures
        run_brighter(img, x, y, p, t, s2, n),
    decreases n,
{
    if n > 0 {
        vstd::arithmetic::div_mod::lemma_add_mod_noop(s1, 1, 16);
        vstd::arithmetic::div_mod::lemma_add_mod_noop(s2, 1, 16);
        lemma_run_brighter_shift(img, x, y, p, t, s1 + 1, s2 + 1, (n - 1) as nat);
    }
}

/// The 16-sample circle test of the FAST detector: scans the
/// circle twice so that a qualifying run may wrap around, and reports a
/// corner as soon as 9 consecutive samples are all darker or all brighter.
pub fn is_corner_fast(image: &Raster, x: usize, y: usize, pixel_value: u8, threshold: u8) -> (r:
    bool)
    requires
        image.wf(),
        3 <= x,
        x + 4 <= image.width,
        3 <= y,
        y + 4 <= image.height,
    ensures
        r == is_corner_spec(*image, x as int, y as int, pixel_value, threshold),
{
    let ghost xi = x as int;
    let ghost yi = y as int;
    let mut consecutive_darker: usize = 0;
    let mut consecutive_brighter: usize = 0;
    let mut step: usize = 0;
    while step < 32
        invariant
            image.wf(),
            3 <= x,
            x + 4 <= image.width,
            3 <= y,
            y + 4 <= image.height,
            xi == x as int,
            yi == y as int,
            step <= 32,
            consecutive_darker <= 8,
            consecutive_brighter <= 8,
            consecutive_darker <= step,
            consecutive_brighter <= step,
            run_darker(
                *image,
                xi,
                yi,
                pixel_value,
                threshold,
                step - consecutive_darker,
                consecutive_darker as nat,
            ),
            run_brighter(
                *image,
                xi,
                yi,
                pixel_value,
                threshold,
                step - consecutive_brighter,
                consecutive_brighter as nat,
            ),
            consecutive_darker == step || !sample_darker(
                *image,
                xi,
                yi,
                pixel_value,
                threshold,
                (step - consecutive_darker - 1) % 16,
            ),
            consecutive_brighter == step || !sample_brighter(
                *image,
                xi,
                yi,
                pixel_value,
                threshold,
                (step - consecutive_brighter - 1) % 16,
            ),
            forall|u: int|
                0 <= u <= step - 9 ==> !run_darker(*image, xi, yi, pixel_value, threshold, u, 9),
            forall|u: int|
                0 <= u <= step - 9 ==> !run_brighter(*image, xi, yi, pixel_value, threshold, u, 9),
        decreases 32 - step,
    {
        let idx: usize = step % 16;
        let (dx, dy) = circle_offset_at(idx);
        proof {
            lemma_circle_offset_bounds(idx as int);
        }
        let sx: usize = offset_coord(x, dx);
        let sy: usize = offset_coord(y, dy);
        let v: u8 = image.get(sx, sy);
        let darker: bool = v < pixel_value && pixel_value - v > threshold;
        let brighter: bool = v > pixel_value && v - pixel_value > threshold;
        proof {
            assert(idx as int == (step as int) % 16);
            assert(darker == sample_darker(*image, xi, yi, pixel_value, threshold, idx as int));
            assert(brighter == sample_brighter(*image, xi, yi, pixel_value, threshold, idx as int));
        }
        let ghost old_cd = consecutive_darker;
        let ghost old_cb = consecutive_brighter;
        if darker {
            consecutive_darker = consecutive_darker + 1;
            consecutive_brighter = 0;
            proof {
                lemma_run_darker_extend(
                    *image,
                    xi,
                    yi,
                    pixel_value,
                    threshold,
                    step - old_cd,
                    old_cd as nat,
                );
            }
        } else if brighter {
            consecutive_brighter = consecutive_brighter + 1;
            consecutive_darker = 0;
            proof {
                lemma_run_brighter_extend(
                    *image,
                    xi,
                    yi,
                    pixel_value,
                    threshold,
                    step - old_cb,
                    old_cb as nat,
                );
            }
        } else {
            consecutive_darker = 0;
            consecutive_brighter = 0;
        }
        if consecutive_darker >= 9 || consecutive_brighter >= 9 {
            proof {
                if consecutive_darker >= 9 {
                    let s = step + 1 - 9;
                    lemma_run_darker_mod(*image, xi, yi, pixel_value, threshold, s, 9);
                    vstd::arithmetic::div_mod::lemma_mod_bound(s, 16);
                    assert(run_darker(*image, xi, yi, pixel_value, threshold, s % 16, 9));
                } else {
                    let s = step + 1 - 9;
                    lemma_run_brighter_mod(*image, xi, yi, pixel_value, threshold, s, 9);
                    vstd::arithmetic::div_mod::lemma_mod_bound(s, 16);
                    assert(run_brighter(*image, xi, yi, pixel_value, threshold, s % 16, 9));
                }
            }
            return true;
        }
        proof {
            let u = step + 1 - 9;
            if u >= 0 {
                if run_darker(*image, xi, yi, pixel_value, threshold, u, 9) {
                    lemma_run_darker_index(*image, xi, yi, pixel_value, threshold, u, 9, 8);
                    assert(sample_darker(*image, xi, yi, pixel_value, threshold, (step as int) % 16));
                    // so the current sample was darker and the darker run grew
                    assert(consecutive_darker == old_cd + 1);
                    assert(old_cd <= 7);
                    assert(old_cd < step);
                    let jj = step - old_cd - 1 - u;
                    assert(0 <= jj < 9);
                    lemma_run_darker_index(*image, xi, yi, pixel_value, threshold, u, 9, jj);
                    assert(false);
                }
                if run_brighter(*image, xi, yi, pixel_value, threshold, u, 9) {
                    lemma_run_brighter_index(*image, xi, yi, pixel_value, threshold, u, 9, 8);
                    assert(sample_brighter(*image, xi, yi, pixel_value, threshold, (step as int) % 16));
                    assert(consecutive_brighter == old_cb + 1);
                    assert(old_cb <= 7);
                    assert(old_cb < step);
                    let jj = step - old_cb - 1 - u;
                    assert(0 <= jj < 9);
                    lemma_run_brighter_index(*image, xi, yi, pixel_value, threshold, u, 9, jj);
                    assert(false);
                }
            }
        }
        step = step + 1;
    }
    proof {
        assert forall|s: int| 0 <= s < 16 implies !run_darker(
            *image,
            xi,
            yi,
            pixel_value,
            threshold,
            s,
            9,
        ) && !run_brighter(*image, xi, yi, pixel_value, threshold, s, 9) by {
            assert(0 <= s <= 32 - 9);
        }
    }
    false
}

/// The corner positions of the row-major interior scan that starts at
/// (x, y): each interior pixel whose circle test passes, in scan order.
pub open spec fn corners_from(img: Raster, t: u8, y: int, x: int) -> Seq<(usize, usize)>
    decreases img.height - y, img.width - x,
    when 3 <= x && 3 <= y
{
    if y + 4 > img.height {
        Seq::empty()
    } else if x + 4 > img.width {
        corners_from(img, t, y + 1, 3)
    } else {
        let rest = corners_from(img, t, y, x + 1);
        if is_corner_spec(img, x, y, img.spec_pixel(x, y), t) {
            seq![(x as usize, y as usize)] + rest
        } else {
            rest
        }
    }
}

/// All corner positions of the image: the scan over the interior, which
/// excludes a 3-pixel border.
pub open spec fn spec_corners(img: Raster, t: u8) -> Seq<(usize, usize)> {
    corners_from(img, t, 3, 3)
}

proof fn lemma_corners_empty_narrow(img: Raster, t: u8, y: int)
    requires
        img.width < 7,
        3 <= y,
    ensures
        corners_from(img, t, y, 3) == Seq::<(usize, usize)>::empty(),
    decreases img.height - y,
{
    if y + 4 <= img.height {
        lemma_corners_empty_narrow(img, t, y + 1);
    }
}

/// The FAST corner detector: every interior pixel whose 16-sample circle
/// test passes, in row-major scan order. Pixels within 3 pixels of the
/// border are never tested; an image too small to have an interior yields
/// an empty sequence.
pub fn fast(image: &Raster, threshold: u8) -> (r: Vec<(usize, usize)>)
    requires
        image.wf(),
    ensures
        r@ == spec_corners(*image, threshold),
{
    let mut keypoints: Vec<(usize, usize)> = Vec::new();
    if image.width < 7 || image.height < 7 {
        proof {
            if image.width < 7 {
                lemma_corners_empty_narrow(*image, threshold, 3);
            }
        }
        return keypoints;
    }
    let mut y: usize = 3;
    while y < image.height - 3
        invariant
            image.wf(),
            7 <= image.width,
            7 <= image.height,
            3 <= y <= image.height - 3,
            spec_corners(*image, threshold) == keypoints@ + corners_from(
                *image,
                threshold,
                y as int,
                3,
            ),
        decreases image.height - y,
    {
        let mut x: usize = 3;
        while x < image.width - 3
            invariant
                image.wf(),
                7 <= image.width,
                7 <= image.height,
                3 <= y < image.height - 3,
                3 <= x <= image.width - 3,
                spec_corners(*image, threshold) == keypoints@ + corners_from(
                    *image,
                    threshold,
                    y as int,
                    x as int,
                ),
            decreases image.width - x,
        {
            let pixel_value: u8 = image.get(x, y);
            let ghost before = keypoints@;
            if is_corner_fast(image, x, y, pixel_value, threshold) {
                keypoints.push((x, y));
                proof {
                    assert(keypoints@ =~= before.push((x, y)));
                    assert(before + corners_from(*image, threshold, y as int, x as int)
                        =~= keypoints@ + corners_from(*image, threshold, y as int, x as int + 1));
                }
            }
            x = x + 1;
        }
        y = y + 1;
    }
    keypoints
}

proof fn lemma_corners_from_interior(img: Raster, t: u8, y: int, x: int)
    requires
        3 <= x,
        3 <= y,
    ensures
        forall|k: int|
            0 <= k < corners_from(img, t, y, x).len() ==> {
                let c = #[trigger] corners_from(img, t, y, x)[k];
                3 <= c.0 && c.0 + 4 <= img.width && 3 <= c.1 && c.1 + 4 <= img.height
            },
    decreases img.height - y, img.width - x,
{
    let cur = corners_from(img, t, y, x);
    if y + 4 > img.height {
        assert(cur.len() == 0);
    } else if x + 4 > img.width {
        lemma_corners_from_interior(img, t, y + 1, 3);
        assert(cur == corners_from(img, t, y + 1, 3));
        assert forall|k: int| 0 <= k < cur.len() implies {
            let c = #[trigger] cur[k];
            3 <= c.0 && c.0 + 4 <= img.width && 3 <= c.1 && c.1 + 4 <= img.height
        } by {
            assert(cur[k] == corners_from(img, t, y + 1, 3)[k]);
        }
    } else {
        lemma_corners_from_interior(img, t, y, x + 1);
        let rest = corners_from(img, t, y, x + 1);
        if is_corner_spec(img, x, y, img.spec_pixel(x, y), t) {
            assert(cur == seq![(x as usize, y as usize)] + rest);
            assert forall|k: int| 0 <= k < cur.len() implies {
                let c = #[trigger] cur[k];
                3 <= c.0 && c.0 + 4 <= img.width && 3 <= c.1 && c.1 + 4 <= img.height
            } by {
                if k == 0 {
                    assert(cur[0] == (x as usize, y as usize));
                } else {
                    assert(cur[k] == rest[k - 1]);
                }
            }
        } else {
            assert(cur == rest);
            assert forall|k: int| 0 <= k < cur.len() implies {
                let c = #[trigger] cur[k];
                3 <= c.0 && c.0 + 4 <= img.width && 3 <= c.1 && c.1 + 4 <= img.height
            } by {
                assert(cur[k] == rest[k]);
            }
        }
    }
}

/// Every reported corner is interior: at least 3 pixels from every border.
pub proof fn lemma_corners_interior(img: Raster, t: u8)
    ensures
        forall|k: int|
            0 <= k < spec_corners(img, t).len() ==> {
                let c = #[trigger] spec_corners(img, t)[k];
                3 <= c.0 && c.0 + 4 <= img.width && 3 <= c.1 && c.1 + 4 <= img.height
            },
{
    lemma_corners_from_interior(img, t, 3, 3);
}

proof fn lemma_uniform_not_corner(img: Raster, t: u8, v: u8, x: int, y: int)
    requires
        img.wf(),
        forall|a: int, b: int|
            0 <= a < img.width && 0 <= b < img.height ==> img.spec_pixel(a, b) == v,
        3 <= x,
        x + 4 <= img.width,
        3 <= y,
        y + 4 <= img.height,
    ensures
        !is_corner_spec(img, x, y, img.spec_pixel(x, y), t),
{
    let p = img.spec_pixel(x, y);
    assert(p == v);
    assert forall|s: int| 0 <= s < 16 implies !run_darker(img, x, y, p, t, s, 9) && !run_brighter(
        img,
        x,
        y,
        p,
        t,
        s,
        9,
    ) by {
        vstd::arithmetic::div_mod::lemma_mod_bound(s, 16);
        let i = s % 16;
        lemma_circle_offset_bounds(i);
        assert(img.spec_pixel(x + circle_offset(i).0, y + circle_offset(i).1) == v);
        if run_darker(img, x, y, p, t, s, 9) {
            assert(sample_darker(img, x, y, p, t, i));
            assert(false);
        }
        if run_brighter(img, x, y, p, t, s, 9) {
            assert(sample_brighter(img, x, y, p, t, i));
            assert(false);
        }
    }
}

proof fn lemma_uniform_scan_empty(img: Raster, t: u8, v: u8, y: int, x: int)
    requires
        img.wf(),
        forall|a: int, b: int|
            0 <= a < img.width && 0 <= b < img.height ==> img.spec_pixel(a, b) == v,
        3 <= x,
        3 <= y,
    ensures
        corners_from(img, t, y, x) == Seq::<(usize, usize)>::empty(),
    decreases img.height - y, img.width - x,
{
    if y + 4 > img.height {
    } else if x + 4 > img.width {
        lemma_uniform_scan_empty(img, t, v, y + 1, 3);
    } else {
        lemma_uniform_not_corner(img, t, v, x, y);
        lemma_uniform_scan_empty(img, t, v, y, x + 1);
    }
}

/// On a uniform image every circle sample equals the center, so no sample
/// is darker or brighter than it by more than any threshold, and the
/// corner detector reports nothing.
pub proof fn lemma_uniform_no_corners(img: Raster, t: u8, v: u8)
    requires
        img.wf(),
        forall|a: int, b: int|
            0 <= a < img.width && 0 <= b < img.height ==> img.spec_pixel(a, b) == v,
    ensures
        spec_corners(img, t) == Seq::<(usize, usize)>::empty(),
{
    lemma_uniform_scan_empty(img, t, v, 3, 3);
}

} // verus!
