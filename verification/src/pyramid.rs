use vstd::prelude::*;
use crate::raster::Raster;

verus! {

/// Octave count of the scale space.
pub const OCTAVES: usize = 4;

/// Intra-octave intervals; each octave holds INTERVALS + 3 rasters.
pub const INTERVALS: usize = 3;

/// Levels per octave of the scale space.
pub const LEVELS: usize = 6;

/// Levels per octave of the difference-of-Gaussians space.
pub const DOG_LEVELS: usize = 5;

/// What imageproc's gaussian_blur_f32 returns for a raster, at the
/// smoothing parameter of combined level t (sigma grows geometrically
/// in t).
pub uninterp spec fn blurred(pixels: Seq<u8>, width: int, height: int, t: int) -> Seq<u8>;

/// What image's imageops::resize with the Triangle filter returns for a
/// raster resized to half its dimensions, rounded down.
pub uninterp spec fn downsampled(pixels: Seq<u8>, width: int, height: int) -> Seq<u8>;

/// Relies on imageproc's filter::gaussian_blur_f32: it preserves the
/// image dimensions, computes a pure function of the pixels and sigma,
/// and panics only for sigma <= 0 — its separable filter indexes in i32,
/// which stays in range because wf bounds both dimensions well below
/// 2^31. Sigma follows the schedule sigma = (16/10) * k^t with
/// k = 2^(1/INTERVALS), always positive; t is octave + interval.
#[verifier::external_body]
fn smooth_image(image: &Raster, t: u32) -> (r: Raster)
    requires
        image.wf(),
        t <= 8,
    ensures
        r.wf(),
        r.width == image.width,
        r.height == image.height,
        r.pixels@ == blurred(image.pixels@, image.width as int, image.height as int, t as int),
{
    let (w, h) = (image.width as u32, image.height as u32);
    let buf = image::GrayImage::from_raw(w, h, image.pixels.clone()).unwrap();
    let sixteen_tenths = num_traits::Float::mul_add(
        num_traits::Float::recip(10 as _),
        16 as _,
        0 as _,
    );
    let k = num_traits::Float::powf(2 as _, num_traits::Float::recip(INTERVALS as u32 as _));
    let sigma = num_traits::Float::mul_add(sixteen_tenths, num_traits::Float::powi(k, t as i32), 0 as _);
    let out = imageproc::filter::gaussian_blur_f32(&buf, sigma);
    Raster { width: image.width, height: image.height, pixels: out.into_raw() }
}

/// Relies on image's imageops::resize with FilterType::Triangle: the
/// result has exactly the requested dimensions (here both halved, rounded
/// down), is a pure function of the input pixels, and never panics.
#[verifier::external_body]
fn halve_image(image: &Raster) -> (r: Raster)
    requires
        image.wf(),
    ensures
        r.wf(),
        r.width == image.width / 2,
        r.height == image.height / 2,
        r.pixels@ == downsampled(image.pixels@, image.width as int, image.height as int),
{
    let nw = (image.width / 2) as u32;
    let nh = (image.height / 2) as u32;
    let buf = image::GrayImage::from_raw(
        image.width as u32,
        image.height as u32,
        image.pixels.clone(),
    ).unwrap();
    let out = image::imageops::resize(&buf, nw, nh, image::imageops::FilterType::Triangle);
    Raster { width: nw as usize, height: nh as usize, pixels: out.into_raw() }
}

/// a and b are the same raster, field by field.
pub open spec fn same_raster(a: Raster, b: Raster) -> bool {
    &&& a.width == b.width
    &&& a.height == b.height
    &&& a.pixels@ == b.pixels@
}

/// cur is prev smoothed at combined level t: same dimensions, pixels as
/// the named blur result.
pub open spec fn blur_step(prev: Raster, cur: Raster, t: int) -> bool {
    &&& cur.wf()
    &&& cur.width == prev.width
    &&& cur.height == prev.height
    &&& cur.pixels@ == blurred(prev.pixels@, prev.width as int, prev.height as int, t)
}

/// cur is prev downsampled by exactly 2x in each dimension, rounded down.
pub open spec fn halve_step(prev: Raster, cur: Raster) -> bool {
    &&& cur.wf()
    &&& cur.width == prev.width / 2
    &&& cur.height == prev.height / 2
    &&& cur.pixels@ == downsampled(prev.pixels@, prev.width as int, prev.height as int)
}

/// The scale-space invariant: 4 octaves of 6 levels; level 0 of octave 0
/// is the input; level 0 of a later octave halves the previous octave's
/// level 0; each later level smooths its predecessor at combined level
/// octave + interval.
pub open spec fn pyramid_wf(p: Seq<Vec<Raster>>, img: Raster) -> bool {
    &&& p.len() == OCTAVES
    &&& forall|o: int| 0 <= o < OCTAVES ==> (#[trigger] p[o])@.len() == LEVELS
    &&& same_raster(p[0]@[0], img)
    &&& forall|o: int| 1 <= o < OCTAVES ==> halve_step(p[o - 1]@[0], (#[trigger] p[o])@[0])
    &&& forall|o: int, i: int|
        0 <= o < OCTAVES && 1 <= i < LEVELS ==> blur_step(p[o]@[i - 1], #[trigger] p[o]@[i], o + i)
}

/// Within one octave every level has the dimensions of level 0.
pub proof fn lemma_pyramid_level_dims(p: Seq<Vec<Raster>>, img: Raster, o: int, i: int)
    requires
        pyramid_wf(p, img),
        0 <= o < OCTAVES,
        0 <= i < LEVELS,
    ensures
        p[o]@[i].width == p[o]@[0].width,
        p[o]@[i].height == p[o]@[0].height,
    decreases i,
{
    if i > 0 {
        lemma_pyramid_level_dims(p, img, o, i - 1);
    }
}

/// 2 to the power o.
pub open spec fn pow2(o: nat) -> nat
    decreases o,
{
    if o == 0 {
        1
    } else {
        2 * pow2((o - 1) as nat)
    }
}

proof fn lemma_pow2_pos(n: nat)
    ensures
        pow2(n) >= 1,
    decreases n,
{
    if n > 0 {
        lemma_pow2_pos((n - 1) as nat);
    }
}

proof fn lemma_pyramid_base_dims(p: Seq<Vec<Raster>>, img: Raster, o: int)
    requires
        pyramid_wf(p, img),
        img.wf(),
        0 <= o < OCTAVES,
    ensures
        p[o]@[0].width == img.width as int / pow2(o as nat) as int,
        p[o]@[0].height == img.height as int / pow2(o as nat) as int,
    decreases o,
{
    if o == 0 {
        assert(img.width as int / 1 == img.width as int);
        assert(img.height as int / 1 == img.height as int);
    } else {
        lemma_pyramid_base_dims(p, img, o - 1);
        lemma_pow2_pos((o - 1) as nat);
        let w = img.width as int;
        let h = img.height as int;
        let q = pow2((o - 1) as nat) as int;
        vstd::arithmetic::div_mod::lemma_div_denominator(w, q, 2);
        vstd::arithmetic::div_mod::lemma_div_denominator(h, q, 2);
        assert(q * 2 == pow2(o as nat) as int);
    }
}

/// Scale-space dimensions: at octave o every level measures
/// floor(W / 2^o) by floor(H / 2^o).
pub proof fn lemma_pyramid_dimensions(p: Seq<Vec<Raster>>, img: Raster, o: int, i: int)
    requires
        pyramid_wf(p, img),
        img.wf(),
        0 <= o < OCTAVES,
        0 <= i < LEVELS,
    ensures
        p[o]@[i].width == img.width as int / pow2(o as nat) as int,
        p[o]@[i].height == img.height as int / pow2(o as nat) as int,
{
    lemma_pyramid_level_dims(p, img, o, i);
    lemma_pyramid_base_dims(p, img, o);
}

/// Builds the Gaussian scale space: 4 octaves of 6 levels, as in
/// pyramid_wf.
pub fn build_scale_space(image: &Raster) -> (r: Vec<Vec<Raster>>)
    requires
        image.wf(),
    ensures
        pyramid_wf(r@, *image),
{
    let mut scale_space: Vec<Vec<Raster>> = Vec::new();
    let mut octave: usize = 0;
    while octave < OCTAVES
        invariant
            image.wf(),
            octave <= OCTAVES,
            scale_space@.len() == octave,
            forall|o: int| 0 <= o < octave ==> (#[trigger] scale_space@[o])@.len() == LEVELS,
            octave > 0 ==> same_raster(scale_space@[0]@[0], *image),
            forall|o: int|
                1 <= o < octave ==> halve_step(scale_space@[o - 1]@[0], (#[trigger] scale_space@[o])@[0]),
            forall|o: int, i: int|
                0 <= o < octave && 1 <= i < LEVELS ==> blur_step(
                    scale_space@[o]@[i - 1],
                    #[trigger] scale_space@[o]@[i],
                    o + i,
                ),
            forall|o: int, i: int| 0 <= o < octave && 0 <= i < LEVELS ==> (#[trigger] scale_space@[o]@[i]).wf(),
        decreases OCTAVES - octave,
    {
        let mut levels: Vec<Raster> = Vec::new();
        let base: Raster = if octave == 0 {
            let p = image.pixels.clone();
            proof {
                assert(p@ == image.pixels@);
            }
            Raster::new(image.width, image.height, p)
        } else {
            halve_image(&scale_space[octave - 1][0])
        };
        proof {
            assert(octave == 0 ==> same_raster(base, *image));
        }
        levels.push(base);
        let mut interval: usize = 1;
        while interval < LEVELS
            invariant
                image.wf(),
                1 <= interval <= LEVELS,
                octave < OCTAVES,
                levels@.len() == interval,
                forall|i: int| 0 <= i < interval ==> (#[trigger] levels@[i]).wf(),
                forall|i: int|
                    1 <= i < interval ==> blur_step(
                        levels@[i - 1],
                        #[trigger] levels@[i],
                        octave + i,
                    ),
                levels@[0] == base,
                base.wf(),
                octave == 0 ==> same_raster(base, *image),
                octave > 0 ==> halve_step(scale_space@[octave - 1]@[0], base),
            decreases LEVELS - interval,
        {
            let prev: &Raster = &levels[interval - 1];
            let next: Raster = smooth_image(prev, (octave + interval) as u32);
            levels.push(next);
            interval = interval + 1;
        }
        scale_space.push(levels);
        octave = octave + 1;
    }
    scale_space
}

/// The per-pixel difference-of-Gaussians value: the difference of two
/// adjacent levels re-biased by 128, saturated into the byte range.
pub open spec fn dog_pixel(a: u8, b: u8) -> u8 {
    let v = a as int - b as int + 128;
    if v < 0 {
        0u8
    } else if v > 255 {
        255u8
    } else {
        v as u8
    }
}

/// cur is the difference-of-Gaussians of a and b: same dimensions, each
/// pixel the re-biased difference.
pub open spec fn dog_step(a: Raster, b: Raster, cur: Raster) -> bool {
    &&& cur.wf()
    &&& cur.width == a.width
    &&& cur.height == a.height
    &&& cur.pixels@.len() == a.pixels@.len()
    &&& forall|j: int|
        0 <= j < cur.pixels@.len() ==> #[trigger] cur.pixels@[j] == dog_pixel(
            a.pixels@[j],
            b.pixels@[j],
        )
}

/// The difference-of-Gaussians invariant over a scale space: 4 octaves of
/// 5 levels, level i the re-biased difference of scale-space levels i and
/// i + 1.
pub open spec fn dog_wf(d: Seq<Vec<Raster>>, p: Seq<Vec<Raster>>) -> bool {
    &&& d.len() == OCTAVES
    &&& forall|o: int| 0 <= o < OCTAVES ==> (#[trigger] d[o])@.len() == DOG_LEVELS
    &&& forall|o: int, i: int|
        0 <= o < OCTAVES && 0 <= i < DOG_LEVELS ==> dog_step(
            p[o]@[i],
            p[o]@[i + 1],
            #[trigger] d[o]@[i],
        )
}

fn dog_level(a: &Raster, b: &Raster) -> (r: Raster)
    requires
        a.wf(),
        b.wf(),
        a.width == b.width,
        a.height == b.height,
    ensures
        dog_step(*a, *b, r),
{
    let n: usize = a.pixels.len();
    let mut out: Vec<u8> = Vec::new();
    let mut j: usize = 0;
    while j < n
        invariant
            a.wf(),
            b.wf(),
            a.width == b.width,
            a.height == b.height,
            n == a.pixels@.len(),
            j <= n,
            out@.len() == j,
            forall|jj: int|
                0 <= jj < j ==> #[trigger] out@[jj] == dog_pixel(a.pixels@[jj], b.pixels@[jj]),
        decreases n - j,
    {
        let value1: u8 = a.pixels[j];
        let value2: u8 = b.pixels[j];
        let v: i32 = value1 as i32 - value2 as i32 + 128;
        let d: u8 = if v < 0 {
            0u8
        } else if v > 255 {
            255u8
        } else {
            v as u8
        };
        out.push(d);
        j = j + 1;
    }
    Raster::new(a.width, a.height, out)
}

/// Builds the difference-of-Gaussians space of a scale space: per octave,
/// one fewer level than the input, level i the re-biased difference of
/// levels i and i + 1.
pub fn build_difference_of_gaussians(scale_space: &Vec<Vec<Raster>>, img: &Raster) -> (r: Vec<
    Vec<Raster>,
>)
    requires
        img.wf(),
        pyramid_wf(scale_space@, *img),
    ensures
        dog_wf(r@, scale_space@),
{
    let mut dog_space: Vec<Vec<Raster>> = Vec::new();
    let mut octave: usize = 0;
    while octave < OCTAVES
        invariant
            img.wf(),
            pyramid_wf(scale_space@, *img),
            octave <= OCTAVES,
            dog_space@.len() == octave,
            forall|o: int| 0 <= o < octave ==> (#[trigger] dog_space@[o])@.len() == DOG_LEVELS,
            forall|o: int, i: int|
                0 <= o < octave && 0 <= i < DOG_LEVELS ==> dog_step(
                    scale_space@[o]@[i],
                    scale_space@[o]@[i + 1],
                    #[trigger] dog_space@[o]@[i],
                ),
        decreases OCTAVES - octave,
    {
        let mut levels: Vec<Raster> = Vec::new();
        let mut interval: usize = 0;
        while interval < DOG_LEVELS
            invariant
                img.wf(),
                pyramid_wf(scale_space@, *img),
                octave < OCTAVES,
                interval <= DOG_LEVELS,
                levels@.len() == interval,
                forall|i: int|
                    0 <= i < interval ==> dog_step(
                        scale_space@[octave as int]@[i],
                        scale_space@[octave as int]@[i + 1],
                        #[trigger] levels@[i],
                    ),
            decreases DOG_LEVELS - interval,
        {
            proof {
                lemma_pyramid_level_dims(scale_space@, *img, octave as int, interval as int);
                lemma_pyramid_level_dims(scale_space@, *img, octave as int, interval as int + 1);
            }
            let oct: &Vec<Raster> = &scale_space[octave];
            let level: Raster = dog_level(&oct[interval], &oct[interval + 1]);
            levels.push(level);
            interval = interval + 1;
        }
        dog_space.push(levels);
        octave = octave + 1;
    }
    dog_space
}

} // verus!
