use vslam_features::extrema::is_extrema;
use vslam_features::features::{Point2, SIFT};
use vslam_features::pyramid::{build_difference_of_gaussians, build_scale_space};
use vslam_features::raster::Raster;
use vslam_features::refine::refine_keypoint;

fn uniform(width: usize, height: usize, v: u8) -> Raster {
    Raster::new(width, height, vec![v; width * height])
}

#[test]
fn pyramid_dimensions_halve_per_octave() {
    let img = uniform(101, 67, 90);
    let pyramid = build_scale_space(&img);
    assert_eq!(pyramid.len(), 4);
    let expected = [(101usize, 67usize), (50, 33), (25, 16), (12, 8)];
    for (o, octave) in pyramid.iter().enumerate() {
        assert_eq!(octave.len(), 6);
        for level in octave.iter() {
            assert_eq!((level.width, level.height), expected[o]);
            assert_eq!(level.pixels.len(), level.width * level.height);
        }
    }
}

#[test]
fn pyramid_base_level_is_the_input() {
    let mut buf = vec![7u8; 40 * 30];
    buf[13 * 40 + 21] = 250;
    let img = Raster::new(40, 30, buf.clone());
    let pyramid = build_scale_space(&img);
    assert_eq!(pyramid[0][0].pixels, buf);
}

#[test]
fn blur_spreads_a_spike() {
    let mut buf = vec![0u8; 31 * 31];
    buf[15 * 31 + 15] = 255;
    let img = Raster::new(31, 31, buf);
    let pyramid = build_scale_space(&img);
    let sharp = pyramid[0][0].pixels[15 * 31 + 15];
    let smooth = pyramid[0][1].pixels[15 * 31 + 15];
    // a genuine blur lowers the spike and lifts a neighbor
    assert!(smooth < sharp);
    assert!(pyramid[0][1].pixels[15 * 31 + 16] > 0);
}

#[test]
fn dog_is_rebias_of_level_differences() {
    let mut buf = vec![60u8; 48 * 36];
    for (j, b) in buf.iter_mut().enumerate() {
        if (j / 48 + j % 48) % 7 == 0 {
            *b = 200;
        }
    }
    let img = Raster::new(48, 36, buf);
    let pyramid = build_scale_space(&img);
    let dog = build_difference_of_gaussians(&pyramid, &img);
    assert_eq!(dog.len(), 4);
    for (o, octave) in dog.iter().enumerate() {
        assert_eq!(octave.len(), 5);
        for (i, level) in octave.iter().enumerate() {
            let a = &pyramid[o][i];
            let b = &pyramid[o][i + 1];
            assert_eq!(level.width, a.width);
            assert_eq!(level.height, a.height);
            for j in 0..level.pixels.len() {
                let v = a.pixels[j] as i32 - b.pixels[j] as i32 + 128;
                let expected = v.clamp(0, 255) as u8;
                assert_eq!(level.pixels[j], expected);
            }
        }
    }
}

fn octave_with_center(center: u8, neighbors: u8) -> Vec<Raster> {
    // five 3x3 levels; the cube around level 1, (1, 1) is uniform at
    // `neighbors` except for the center
    let mut levels = Vec::new();
    for i in 0..5usize {
        let mut buf = vec![neighbors; 9];
        if i == 1 {
            buf[4] = center;
        }
        if i >= 3 {
            buf = vec![0u8; 9];
        }
        levels.push(Raster::new(3, 3, buf));
    }
    levels
}

#[test]
fn extrema_detects_strict_maximum() {
    let oct = octave_with_center(100, 99);
    assert!(is_extrema(&oct, 1, 1, 1));
}

#[test]
fn extrema_rejects_equal_neighbor() {
    // raising any one neighbor to the center value breaks strictness;
    // try each of the 26 neighbors in turn
    for level in 0..3usize {
        for pos in 0..9usize {
            if level == 1 && pos == 4 {
                continue;
            }
            let mut oct = octave_with_center(100, 99);
            let mut buf = oct[level].pixels.clone();
            buf[pos] = 100;
            oct[level] = Raster::new(3, 3, buf);
            assert!(!is_extrema(&oct, 1, 1, 1), "level {level} pos {pos}");
        }
    }
}

#[test]
fn extrema_rejects_minimum() {
    // only maxima are detected, never minima
    let oct = octave_with_center(50, 99);
    assert!(!is_extrema(&oct, 1, 1, 1));
}

fn peak_octave(center: u8, rest: u8) -> Vec<Vec<Raster>> {
    // five 5x5 levels; level 1 has a symmetric peak at (2, 2)
    let mut levels = Vec::new();
    for i in 0..5usize {
        let mut buf = vec![rest; 25];
        if i == 1 {
            buf[2 * 5 + 2] = center;
        }
        levels.push(Raster::new(5, 5, buf));
    }
    vec![levels]
}

#[test]
fn refine_accepts_symmetric_peak_in_place() {
    let dog = peak_octave(200, 100);
    let refined = refine_keypoint(&dog, 0, 1, 2, 2);
    assert_eq!(refined, Some(Point2 { x: 2 * 65536, y: 2 * 65536 }));
}

#[test]
fn refine_rejects_low_contrast_peak() {
    // a peak of difference-of-Gaussians value 5 falls below the contrast
    // threshold 0.03 (about 7.65 of 255)
    let dog = peak_octave(5, 0);
    assert_eq!(refine_keypoint(&dog, 0, 1, 2, 2), None);
}

#[test]
fn sift_features_carry_zero_descriptors() {
    // the scale-space pipeline produces locatable but non-describable
    // features: every descriptor is the all-zero sentinel
    let mut buf = vec![30u8; 64 * 64];
    for y in 24..40usize {
        for x in 24..40usize {
            buf[y * 64 + x] = 220;
        }
    }
    let img = Raster::new(64, 64, buf);
    let features: Vec<SIFT> = SIFT::extract_features(&img);
    for f in features.iter() {
        assert_eq!(f.descriptor, [0u64; 4]);
    }
}
