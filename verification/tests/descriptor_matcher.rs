use vslam_features::descriptor::{hamming_distance, make_offset_table};
use vslam_features::features::ORB;
use vslam_features::features::Point2;

fn orb_at(descriptor: [u64; 4]) -> ORB {
    ORB { location: Point2 { x: 0, y: 0 }, descriptor }
}

#[test]
fn hamming_zero_on_self() {
    let a: [u64; 4] = [0x0123_4567_89ab_cdef, 42, u64::MAX, 7];
    assert_eq!(hamming_distance(&a, &a), 0);
}

#[test]
fn hamming_symmetric() {
    let a: [u64; 4] = [0xdead_beef, 1, 2, 3];
    let b: [u64; 4] = [17, 0xffff_0000_ffff_0000, 5, 0];
    assert_eq!(hamming_distance(&a, &b), hamming_distance(&b, &a));
}

#[test]
fn hamming_bounded_by_256() {
    let a: [u64; 4] = [0, 0, 0, 0];
    let b: [u64; 4] = [u64::MAX, u64::MAX, u64::MAX, u64::MAX];
    let d = hamming_distance(&a, &b);
    assert_eq!(d, 256);
    let c: [u64; 4] = [0xff00_ff00_ff00_ff00, 0, 1, 3];
    assert!(hamming_distance(&a, &c) <= 256);
}

#[test]
fn hamming_exact_value() {
    // words differ in exactly 1 + 2 + 0 + 4 bits
    let a: [u64; 4] = [0b1000, 0b11, 0, 0b1111_0000];
    let b: [u64; 4] = [0, 0, 0, 0];
    assert_eq!(hamming_distance(&a, &b), 7);
}

#[test]
fn matcher_rejects_equal_best_and_second() {
    // both candidates at distance 1: best == second, ratio test fails
    let a = vec![orb_at([0b1, 0, 0, 0])];
    let b = vec![orb_at([0b11, 0, 0, 0]), orb_at([0b101, 0, 0, 0])];
    let matches = ORB::match_features(&a, &b);
    assert!(matches.is_empty());
}

#[test]
fn matcher_accepts_zero_best_with_distant_second() {
    // best distance 0, second-best 4: 0 < floor(4 * 4 / 5) = 3
    let a = vec![orb_at([0b1, 0, 0, 0])];
    let b = vec![orb_at([0b1, 0, 0, 0]), orb_at([0b1111_1, 0, 0, 0])];
    let matches = ORB::match_features(&a, &b);
    assert_eq!(matches, vec![(0usize, 0usize)]);
}

#[test]
fn matcher_rejects_zero_best_with_second_of_one() {
    // the truncated threshold floor(4 * 1 / 5) is 0, so even a perfect
    // best match is rejected
    let a = vec![orb_at([0b1, 0, 0, 0])];
    let b = vec![orb_at([0b1, 0, 0, 0]), orb_at([0b11, 0, 0, 0])];
    let matches = ORB::match_features(&a, &b);
    assert!(matches.is_empty());
}

#[test]
fn matcher_single_candidate_always_accepted() {
    // with one candidate the second-best stays at the u32::MAX sentinel,
    // whose truncated four fifths exceeds any real distance
    let a = vec![orb_at([0xffff, 0, 0, 0])];
    let b = vec![orb_at([0, 0, 0, 0])];
    let matches = ORB::match_features(&a, &b);
    assert_eq!(matches, vec![(0usize, 0usize)]);
}

#[test]
fn matcher_empty_inputs_give_empty_list() {
    let empty: Vec<ORB> = Vec::new();
    let one = vec![orb_at([1, 0, 0, 0])];
    assert!(ORB::match_features(&empty, &one).is_empty());
    assert!(ORB::match_features(&one, &empty).is_empty());
    assert!(ORB::match_features(&empty, &empty).is_empty());
}

#[test]
fn matcher_first_minimal_index_wins() {
    // two candidates at distance 0 from a: tie keeps the earlier index,
    // but best == second means rejection
    let a = vec![orb_at([7, 0, 0, 0])];
    let b = vec![orb_at([7, 0, 0, 0]), orb_at([7, 0, 0, 0])];
    assert!(ORB::match_features(&a, &b).is_empty());
}

#[test]
fn offset_table_shape() {
    let t = make_offset_table();
    assert_eq!(t.len(), 256);
    for &(dx, dy) in t.iter() {
        assert!((-15..=15).contains(&dx));
        assert!((-15..=15).contains(&dy));
    }
}
