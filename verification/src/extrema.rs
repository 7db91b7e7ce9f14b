use vstd::prelude::*;
use crate::pyramid::DOG_LEVELS;
use crate::raster::Raster;

verus! {

/// One octave of difference-of-Gaussians levels: the full level count,
/// every raster well-formed, all with the dimensions of level 0.
pub open spec fn octave_ok(oct: Seq<Raster>) -> bool {
    &&& oct.len() == DOG_LEVELS
    &&& forall|i: int|
        0 <= i < oct.len() ==> (#[trigger] oct[i]).wf() && oct[i].width == oct[0].width
            && oct[i].height == oct[0].height
}

/// The 26-neighbor test: the center value is strictly greater than every
/// other value of the 3x3x3 cube spanning levels interval-1 to interval+1.
/// Only maxima are detected, never minima.
pub open spec fn is_extremum_spec(oct: Seq<Raster>, interval: int, x: int, y: int) -> bool {
    let c = oct[interval].spec_pixel(x, y);
    forall|i: int, a: int, b: int|
        interval - 1 <= i <= interval + 1 && x - 1 <= a <= x + 1 && y - 1 <= b <= y + 1 && !(i
            == interval && a == x && b == y) ==> #[trigger] oct[i].spec_pixel(a, b) < c
}

/// Reports whether the pixel at (x, y) of the given interval is a strict
/// local maximum of its 3x3x3 scale-space neighborhood.
pub fn is_extrema(dog_octave: &Vec<Raster>, interval: usize, x: usize, y: usize) -> (r: bool)
    requires
        octave_ok(dog_octave@),
        1 <= interval,
        interval + 1 < dog_octave@.len(),
        1 <= x,
        x + 1 < dog_octave@[0].width,
        1 <= y,
        y + 1 < dog_octave@[0].height,
    ensures
        r == is_extremum_spec(dog_octave@, interval as int, x as int, y as int),
{
    let center_pixel: u8 = dog_octave[interval].get(x, y);
    let mut i: usize = interval - 1;
    while i <= interval + 1
        invariant
            octave_ok(dog_octave@),
            1 <= interval,
            interval + 1 < dog_octave@.len(),
            1 <= x,
            x + 1 < dog_octave@[0].width,
            1 <= y,
            y + 1 < dog_octave@[0].height,
            interval - 1 <= i <= interval + 2,
            center_pixel == dog_octave@[interval as int].spec_pixel(x as int, y as int),
            forall|ii: int, a: int, b: int|
                interval - 1 <= ii < i && x - 1 <= a <= x + 1 && y - 1 <= b <= y + 1 && !(ii
                    == interval && a == x && b == y) ==> #[trigger] dog_octave@[ii].spec_pixel(
                    a,
                    b,
                ) < center_pixel,
        decreases interval + 2 - i,
    {
        let mut b: usize = y - 1;
        while b <= y + 1
            invariant
                octave_ok(dog_octave@),
                1 <= interval,
                interval + 1 < dog_octave@.len(),
                1 <= x,
                x + 1 < dog_octave@[0].width,
                1 <= y,
                y + 1 < dog_octave@[0].height,
                interval - 1 <= i <= interval + 1,
                y - 1 <= b <= y + 2,
                center_pixel == dog_octave@[interval as int].spec_pixel(x as int, y as int),
                forall|ii: int, a: int, bb: int|
                    interval - 1 <= ii < i && x - 1 <= a <= x + 1 && y - 1 <= bb <= y + 1 && !(ii
                        == interval && a == x && bb == y) ==> #[trigger] dog_octave@[ii].spec_pixel(
                        a,
                        bb,
                    ) < center_pixel,
                forall|a: int, bb: int|
                    y - 1 <= bb < b && x - 1 <= a <= x + 1 && !(i == interval && a == x && bb == y)
                        ==> #[trigger] dog_octave@[i as int].spec_pixel(a, bb) < center_pixel,
            decreases y + 2 - b,
        {
            let mut a: usize = x - 1;
            while a <= x + 1
                invariant
                    octave_ok(dog_octave@),
                    1 <= interval,
                    interval + 1 < dog_octave@.len(),
                    1 <= x,
                    x + 1 < dog_octave@[0].width,
                    1 <= y,
                    y + 1 < dog_octave@[0].height,
                    interval - 1 <= i <= interval + 1,
                    y - 1 <= b <= y + 1,
                    x - 1 <= a <= x + 2,
                    center_pixel == dog_octave@[interval as int].spec_pixel(x as int, y as int),
                    forall|ii: int, aa: int, bb: int|
                        interval - 1 <= ii < i && x - 1 <= aa <= x + 1 && y - 1 <= bb <= y + 1
                            && !(ii == interval && aa == x && bb == y)
                            ==> #[trigger] dog_octave@[ii].spec_pixel(aa, bb) < center_pixel,
                    forall|aa: int, bb: int|
                        y - 1 <= bb < b && x - 1 <= aa <= x + 1 && !(i == interval && aa == x && bb
                            == y) ==> #[trigger] dog_octave@[i as int].spec_pixel(aa, bb)
                            < center_pixel,
                    forall|aa: int|
                        x - 1 <= aa < a && !(i == interval && aa == x && b == y)
                            ==> #[trigger] dog_octave@[i as int].spec_pixel(aa, b as int)
                            < center_pixel,
                decreases x + 2 - a,
            {
                let neighbor_pixel: u8 = dog_octave[i].get(a, b);
                if !(i == interval && a == x && b == y) {
                    if center_pixel <= neighbor_pixel {
                        return false;
                    }
                }
                a = a + 1;
            }
            b = b + 1;
        }
        i = i + 1;
    }
    true
}

} // verus!
