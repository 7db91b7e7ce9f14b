use vslam_features::corner::fast;
use vslam_features::descriptor::{brief, make_offset_table};
use vslam_features::features::ORB;
use vslam_features::raster::Raster;

fn uniform(width: usize, height: usize, v: u8) -> Raster {
    Raster::new(width, height, vec![v; width * height])
}

fn fill_square(r: &mut Vec<u8>, width: usize, x0: usize, y0: usize, side: usize, v: u8) {
    for y in y0..y0 + side {
        for x in x0..x0 + side {
            r[y * width + x] = v;
        }
    }
}

#[test]
fn flat_image_has_no_corners() {
    let img = uniform(32, 32, 128);
    assert!(fast(&img, 20).is_empty());
}

#[test]
fn flat_dark_image_has_no_corners() {
    let img = uniform(48, 16, 0);
    assert!(fast(&img, 20).is_empty());
}

#[test]
fn tiny_image_yields_empty_list() {
    let img = uniform(5, 4, 9);
    assert!(fast(&img, 20).is_empty());
}

#[test]
fn square_corners_cluster_near_vertices() {
    let width = 64usize;
    let height = 64usize;
    let mut buf = vec![10u8; width * height];
    fill_square(&mut buf, width, 20, 20, 24, 200);
    let img = Raster::new(width, height, buf);
    let keypoints = fast(&img, 20);
    assert!(!keypoints.is_empty());
    // the four vertices of the square, as the nearest interior pixels
    let vertices = [(20i64, 20i64), (43, 20), (20, 43), (43, 43)];
    for &(x, y) in keypoints.iter() {
        let near = vertices.iter().any(|&(vx, vy)| {
            (x as i64 - vx).abs() <= 3 && (y as i64 - vy).abs() <= 3
        });
        assert!(near, "keypoint ({x}, {y}) is not near a square vertex");
    }
}

#[test]
fn brief_zero_descriptor_for_border_keypoint() {
    let img = uniform(40, 40, 50);
    let offsets = make_offset_table();
    // a keypoint 5 pixels from the border: its 31x31 patch does not fit
    let descriptors = brief(&img, &vec![(5usize, 20usize)], &offsets);
    assert_eq!(descriptors.len(), 1);
    assert_eq!(descriptors[0], [0u64; 4]);
}

#[test]
fn brief_preserves_keypoint_order_and_count() {
    let img = uniform(64, 64, 50);
    let offsets = make_offset_table();
    let kps = vec![(20usize, 20usize), (30, 30), (2, 2)];
    let descriptors = brief(&img, &kps, &offsets);
    assert_eq!(descriptors.len(), 3);
    // on a uniform image no strict comparison fires: all-zero descriptors
    assert_eq!(descriptors[0], [0u64; 4]);
    assert_eq!(descriptors[1], [0u64; 4]);
}

#[test]
fn extract_features_scales_locations() {
    let width = 64usize;
    let height = 64usize;
    let mut buf = vec![10u8; width * height];
    fill_square(&mut buf, width, 24, 24, 16, 220);
    let img = Raster::new(width, height, buf);
    let offsets = make_offset_table();
    let corners = fast(&img, 20);
    let features = ORB::extract_features(&img, &offsets);
    assert_eq!(features.len(), corners.len());
    for (k, &(x, y)) in corners.iter().enumerate() {
        assert_eq!(features[k].location.x, (x as i64) * 65536);
        assert_eq!(features[k].location.y, (y as i64) * 65536);
    }
}

#[test]
fn end_to_end_translation_recovered() {
    let width = 96usize;
    let height = 96usize;
    let (dx, dy) = (5usize, 3usize);
    let mut buf_a = vec![0u8; width * height];
    let mut buf_b = vec![0u8; width * height];
    // squares of distinct sizes, so that corner patches differ
    let squares = [(20usize, 20usize, 9usize, 80u8), (52, 28, 12, 160), (30, 56, 15, 240)];
    for &(x0, y0, side, v) in squares.iter() {
        fill_square(&mut buf_a, width, x0, y0, side, v);
        fill_square(&mut buf_b, width, x0 + dx, y0 + dy, side, v);
    }
    let img_a = Raster::new(width, height, buf_a);
    let img_b = Raster::new(width, height, buf_b);

    // one sampling table, shared by both extractions
    let offsets = make_offset_table();
    let features_a = ORB::extract_features(&img_a, &offsets);
    let features_b = ORB::extract_features(&img_b, &offsets);
    let matches = ORB::match_features(&features_a, &features_b);
    assert!(!matches.is_empty());

    let mut dxs: Vec<i64> = Vec::new();
    let mut dys: Vec<i64> = Vec::new();
    for &(i, j) in matches.iter() {
        dxs.push(features_b[j].location.x - features_a[i].location.x);
        dys.push(features_b[j].location.y - features_a[i].location.y);
    }
    dxs.sort();
    dys.sort();
    let med_x = dxs[dxs.len() / 2];
    let med_y = dys[dys.len() / 2];
    // the median displacement matches the applied translation within 1 px
    assert!((med_x - (dx as i64) * 65536).abs() <= 65536);
    assert!((med_y - (dy as i64) * 65536).abs() <= 65536);
}
