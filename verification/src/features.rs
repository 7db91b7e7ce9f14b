use vstd::prelude::*;
use crate::corner::{fast, lemma_corners_interior, spec_corners};
use crate::descriptor::{brief, hamming_distance, spec_descriptor};
use crate::extrema::{is_extrema, is_extremum_spec, octave_ok};
use crate::matcher::{matches_upto, scan_best, spec_matches};
use crate::pyramid::{
    build_difference_of_gaussians, build_scale_space, dog_wf, lemma_pyramid_level_dims, pyramid_wf,
    DOG_LEVELS, OCTAVES,
};
use crate::raster::Raster;
use crate::refine::{refine_from, refine_keypoint};

verus! {

/// The corner detector's default intensity threshold.
pub const FAST_THRESHOLD: u8 = 20;

/// One sub-pixel coordinate unit is 1 / 65536 of a pixel.
pub const COORD_SCALE: i64 = 65536;

/// A sub-pixel image location in fixed-point coordinates: x and y are
/// multiples of 1 / 65536 pixel.
#[derive(Clone, Copy, Debug, PartialEq, Eq, Structural)]
pub struct Point2 {
    pub x: i64,
    pub y: i64,
}

/// A corner-pipeline feature: a location and a 256-bit binary descriptor
/// held as four 64-bit words.
#[derive(Clone, Copy)]
pub struct ORB {
    pub location: Point2,
    pub descriptor: [u64; 4],
}

/// A scale-space-pipeline feature: a refined location in the coordinates
/// of its octave. The descriptor is always the all-zero sentinel: this
/// pipeline computes no descriptors.
#[derive(Clone, Copy)]
pub struct SIFT {
    pub location: Point2,
    pub descriptor: [u64; 4],
}

impl ORB {
    /// The corner pipeline: FAST corners at the default threshold, then one
    /// BRIEF descriptor per corner from the shared offset table, one record
    /// per corner in scan order, integer locations promoted to fixed point.
    pub fn extract_features(image: &Raster, offsets: &Vec<(i32, i32)>) -> (r: Vec<ORB>)
        requires
            image.wf(),
            offsets@.len() == 256,
            forall|k: int|
                0 <= k < 256 ==> -15 <= #[trigger] offsets@[k].0 <= 15 && -15 <= offsets@[k].1
                    <= 15,
        ensures
            r@.len() == spec_corners(*image, FAST_THRESHOLD).len(),
            forall|k: int|
                0 <= k < r@.len() ==> {
                    let c = spec_corners(*image, FAST_THRESHOLD)[k];
                    (#[trigger] r@[k]).location.x == c.0 * COORD_SCALE && r@[k].location.y == c.1
                        * COORD_SCALE && spec_descriptor(
                        *image,
                        c.0 as int,
                        c.1 as int,
                        offsets@,
                        r@[k].descriptor@,
                    )
                },
    {
        let key_points: Vec<(usize, usize)> = fast(image, FAST_THRESHOLD);
        proof {
            lemma_corners_interior(*image, FAST_THRESHOLD);
        }
        let descriptors: Vec<[u64; 4]> = brief(image, &key_points, offsets);
        let mut features: Vec<ORB> = Vec::new();
        let mut k: usize = 0;
        while k < key_points.len()
            invariant
                key_points@.len() == descriptors@.len(),
                key_points@ == spec_corners(*image, FAST_THRESHOLD),
                forall|j: int|
                    0 <= j < key_points@.len() ==> #[trigger] key_points@[j].0 + 4 <= image.width
                        && key_points@[j].1 + 4 <= image.height,
                image.wf(),
                forall|j: int|
                    0 <= j < key_points@.len() ==> spec_descriptor(
                        *image,
                        key_points@[j].0 as int,
                        key_points@[j].1 as int,
                        offsets@,
                        #[trigger] descriptors@[j]@,
                    ),
                k <= key_points@.len(),
                features@.len() == k,
                forall|j: int|
                    0 <= j < k ==> {
                        let c = key_points@[j];
                        (#[trigger] features@[j]).location.x == c.0 * COORD_SCALE
                            && features@[j].location.y == c.1 * COORD_SCALE
                            && features@[j].descriptor@ == descriptors@[j]@
                    },
            decreases key_points@.len() - k,
        {
            let (x, y) = key_points[k];
            let location = Point2 { x: (x as i64) * COORD_SCALE, y: (y as i64) * COORD_SCALE };
            features.push(ORB { location, descriptor: descriptors[k] });
            k = k + 1;
        }
        features
    }

    /// For each element of feature1, the nearest and second-nearest
    /// descriptors in feature2 by bit distance; the pair is kept iff the
    /// ratio rule accepts it. One-directional: no cross-check.
    pub fn match_features(feature1: &Vec<ORB>, feature2: &Vec<ORB>) -> (r: Vec<(usize, usize)>)
        ensures
            r@ == spec_matches(feature1@, feature2@),
    {
        let mut matches: Vec<(usize, usize)> = Vec::new();
        let mut i: usize = 0;
        while i < feature1.len()
            invariant
                i <= feature1@.len(),
                matches@ == matches_upto(feature1@, feature2@, i as nat),
            decreases feature1@.len() - i,
        {
            let mut best_distance: u32 = u32::MAX;
            let mut second_best_distance: u32 = u32::MAX;
            let mut best_index: Option<usize> = None;

            let mut j: usize = 0;
            while j < feature2.len()
                invariant
                    j <= feature2@.len(),
                    i < feature1@.len(),
                    scan_best(feature1@[i as int].descriptor@, feature2@, j as nat) == (
                        best_distance as int,
                        second_best_distance as int,
                        best_index,
                    ),
                decreases feature2@.len() - j,
            {
                let distance: u32 = hamming_distance(
                    &feature1[i].descriptor,
                    &feature2[j].descriptor,
                );
                if distance < best_distance {
                    second_best_distance = best_distance;
                    best_distance = distance;
                    best_index = Some(j);
                } else if distance < second_best_distance {
                    second_best_distance = distance;
                }
                j = j + 1;
            }

            // ratio test against the truncated four fifths of the second-best
            let threshold: u64 = 4 * (second_best_distance as u64) / 5;
            if (best_distance as u64) < threshold {
                if let Some(best_j) = best_index {
                    matches.push((i, best_j));
                }
            }
            i = i + 1;
        }
        matches
    }
}

/// The refined keypoint locations of the row-major scan of the
/// difference-of-Gaussians space that starts at octave o, interval i,
/// position (x, y): for each interior candidate of each interior interval,
/// in scan order, the refined fixed-point location when the extremum test
/// and the refinement both accept it.
pub open spec fn keypoints_from(d: Seq<Vec<Raster>>, o: int, i: int, y: int, x: int) -> Seq<
    (int, int),
>
    decreases 4 - o, 4 - i, d[o]@[0].height - y, d[o]@[0].width - x,
{
    if o >= 4 {
        Seq::empty()
    } else {
        let w = d[o]@[0].width as int;
        let h = d[o]@[0].height as int;
        if i > 3 {
            keypoints_from(d, o + 1, 1, 1, 1)
        } else if y + 1 >= h {
            keypoints_from(d, o, i + 1, 1, 1)
        } else if x + 1 >= w {
            keypoints_from(d, o, i, y + 1, 1)
        } else {
            let rest = keypoints_from(d, o, i, y, x + 1);
            let refined = refine_from(d[o]@, w, h, x * 65536, y * 65536, i * 65536, 5);
            if is_extremum_spec(d[o]@, i, x, y) && refined.is_some() {
                seq![refined.unwrap()] + rest
            } else {
                rest
            }
        }
    }
}

/// All refined keypoint locations of the difference-of-Gaussians space.
pub open spec fn spec_keypoints(d: Seq<Vec<Raster>>) -> Seq<(int, int)> {
    keypoints_from(d, 0, 1, 1, 1)
}

/// The fixed-point locations of a feature sequence.
pub open spec fn locations_of(s: Seq<SIFT>) -> Seq<(int, int)> {
    s.map_values(|f: SIFT| (f.location.x as int, f.location.y as int))
}

/// r lists exactly the refined keypoints of d, in scan order, each with
/// the all-zero descriptor.
pub open spec fn sift_output_matches(d: Seq<Vec<Raster>>, r: Seq<SIFT>) -> bool {
    &&& locations_of(r) == spec_keypoints(d)
    &&& forall|k: int|
        0 <= k < r.len() ==> (#[trigger] r[k]).descriptor@ == seq![0u64, 0u64, 0u64, 0u64]
}

/// Scans every interior interval of every octave of the
/// difference-of-Gaussians space, keeps the candidates that pass the
/// 26-neighbor extremum test, and refines each; the accepted refined
/// locations are returned in scan order with all-zero descriptors.
pub fn find_keypoints(dog_space: &Vec<Vec<Raster>>) -> (r: Vec<SIFT>)
    requires
        dog_space@.len() == OCTAVES,
        forall|o: int| 0 <= o < OCTAVES ==> octave_ok((#[trigger] dog_space@[o])@),
    ensures
        sift_output_matches(dog_space@, r@),
{
    let mut keypoints: Vec<SIFT> = Vec::new();
    let ghost d = dog_space@;
    let mut octave: usize = 0;
    while octave < OCTAVES
        invariant
            dog_space@ == d,
            d.len() == OCTAVES,
            forall|o: int| 0 <= o < OCTAVES ==> octave_ok((#[trigger] d[o])@),
            octave <= OCTAVES,
            spec_keypoints(d) == locations_of(keypoints@) + keypoints_from(
                d,
                octave as int,
                1,
                1,
                1,
            ),
            forall|k: int|
                0 <= k < keypoints@.len() ==> (#[trigger] keypoints@[k]).descriptor@ == seq![
                    0u64,
                    0u64,
                    0u64,
                    0u64,
                ],
        decreases OCTAVES - octave,
    {
        let w: usize = dog_space[octave][0].width;
        let h: usize = dog_space[octave][0].height;
        let mut interval: usize = 1;
        while interval < 4
            invariant
                dog_space@ == d,
                d.len() == OCTAVES,
                forall|o: int| 0 <= o < OCTAVES ==> octave_ok((#[trigger] d[o])@),
                octave < OCTAVES,
                1 <= interval <= 4,
                w == d[octave as int]@[0].width,
                h == d[octave as int]@[0].height,
                spec_keypoints(d) == locations_of(keypoints@) + keypoints_from(
                    d,
                    octave as int,
                    interval as int,
                    1,
                    1,
                ),
                forall|k: int|
                    0 <= k < keypoints@.len() ==> (#[trigger] keypoints@[k]).descriptor@ == seq![
                        0u64,
                        0u64,
                        0u64,
                        0u64,
                    ],
            decreases 4 - interval,
        {
            let yb: usize = if h >= 2 {
                h - 2
            } else {
                0
            };
            let mut y: usize = 1;
            while y <= yb
                invariant
                    dog_space@ == d,
                    d.len() == OCTAVES,
                    forall|o: int| 0 <= o < OCTAVES ==> octave_ok((#[trigger] d[o])@),
                    octave < OCTAVES,
                    1 <= interval <= 3,
                    w == d[octave as int]@[0].width,
                    h == d[octave as int]@[0].height,
                    yb == (if h >= 2 { h - 2 as int } else { 0 }),
                    1 <= y <= yb + 1,
                    spec_keypoints(d) == locations_of(keypoints@) + keypoints_from(
                        d,
                        octave as int,
                        interval as int,
                        y as int,
                        1,
                    ),
                    forall|k: int|
                        0 <= k < keypoints@.len() ==> (#[trigger] keypoints@[k]).descriptor@
                            == seq![0u64, 0u64, 0u64, 0u64],
                decreases yb + 1 - y,
            {
                let xb: usize = if w >= 2 {
                    w - 2
                } else {
                    0
                };
                let mut x: usize = 1;
                while x <= xb
                    invariant
                        dog_space@ == d,
                        d.len() == OCTAVES,
                        forall|o: int| 0 <= o < OCTAVES ==> octave_ok((#[trigger] d[o])@),
                        octave < OCTAVES,
                        1 <= interval <= 3,
                        w == d[octave as int]@[0].width,
                        h == d[octave as int]@[0].height,
                        1 <= y,
                        y + 1 < h,
                        xb == (if w >= 2 { w - 2 as int } else { 0 }),
                        1 <= x <= xb + 1,
                        spec_keypoints(d) == locations_of(keypoints@) + keypoints_from(
                            d,
                            octave as int,
                            interval as int,
                            y as int,
                            x as int,
                        ),
                        forall|k: int|
                            0 <= k < keypoints@.len() ==> (#[trigger] keypoints@[k]).descriptor@
                                == seq![0u64, 0u64, 0u64, 0u64],
                    decreases xb + 1 - x,
                {
                    let ghost before = keypoints@;
                    let ghost head = keypoints_from(
                        d,
                        octave as int,
                        interval as int,
                        y as int,
                        x as int,
                    );
                    let ghost rest = keypoints_from(
                        d,
                        octave as int,
                        interval as int,
                        y as int,
                        x as int + 1,
                    );
                    if is_extrema(&dog_space[octave], interval, x, y) {
                        if let Some(location) = refine_keypoint(dog_space, octave, interval, x, y) {
                            let descriptor: [u64; 4] = [0u64, 0u64, 0u64, 0u64];
                            proof {
                                assert(descriptor@ =~= seq![0u64, 0u64, 0u64, 0u64]);
                            }
                            keypoints.push(SIFT { location, descriptor });
                            proof {
                                let e = (location.x as int, location.y as int);
                                assert(head == seq![e] + rest);
                                assert(locations_of(keypoints@) =~= locations_of(before).push(e));
                                assert(locations_of(before) + head =~= locations_of(keypoints@)
                                    + rest);
                            }
                        } else {
                            proof {
                                assert(head == rest);
                            }
                        }
                    } else {
                        proof {
                            assert(head == rest);
                        }
                    }
                    x = x + 1;
                }
                y = y + 1;
            }
            interval = interval + 1;
        }
        octave = octave + 1;
    }
    keypoints
}

impl SIFT {
    /// The scale-space pipeline: build the Gaussian scale space and its
    /// difference-of-Gaussians, then detect and refine extrema. The
    /// records carry refined locations in the coordinates of their octave
    /// and all-zero descriptors: this pipeline assigns no orientation and
    /// computes no descriptors, so its features are locatable but not
    /// matchable.
    pub fn extract_features(image: &Raster) -> (r: Vec<SIFT>)
        requires
            image.wf(),
        ensures
            exists|p: Seq<Vec<Raster>>, d: Seq<Vec<Raster>>|
                pyramid_wf(p, *image) && #[trigger] dog_wf(d, p) && sift_output_matches(d, r@),
    {
        let scale_space: Vec<Vec<Raster>> = build_scale_space(image);
        let dog_space: Vec<Vec<Raster>> = build_difference_of_gaussians(&scale_space, image);
        proof {
            assert forall|o: int| 0 <= o < OCTAVES implies octave_ok(
                (#[trigger] dog_space@[o])@,
            ) by {
                assert forall|i: int| 0 <= i < DOG_LEVELS implies (#[trigger] dog_space@[o]@[i]).wf()
                    && dog_space@[o]@[i].width == dog_space@[o]@[0].width
                    && dog_space@[o]@[i].height == dog_space@[o]@[0].height by {
                    lemma_pyramid_level_dims(scale_space@, *image, o, i);
                    lemma_pyramid_level_dims(scale_space@, *image, o, 0);
                }
            }
        }
        let keypoints: Vec<SIFT> = find_keypoints(&dog_space);
        proof {
            let p = scale_space@;
            let d = dog_space@;
            assert(pyramid_wf(p, *image) && dog_wf(d, p) && sift_output_matches(d, keypoints@));
        }
        keypoints
    }
}

} // verus!
