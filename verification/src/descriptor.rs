use vstd::prelude::*;
use crate::raster::{offset_coord, Raster};

verus! {

/// Number of set bits among the low n bits of x.
pub open spec fn popcount_upto(x: u64, n: nat) -> nat
    decreases n,
{
    if n == 0 {
        0
    } else {
        (x & 1) as nat + popcount_upto(x >> 1, (n - 1) as nat)
    }
}

/// Number of set bits of a 64-bit word.
pub open spec fn popcount(x: u64) -> nat {
    popcount_upto(x, 64)
}

proof fn lemma_popcount_upto_bound(x: u64, n: nat)
    ensures
        popcount_upto(x, n) <= n,
    decreases n,
{
    if n > 0 {
        assert(x & 1 <= 1) by (bit_vector);
        lemma_popcount_upto_bound(x >> 1, (n - 1) as nat);
    }
}

/// A word has at most 64 set bits.
pub proof fn lemma_popcount_bound(x: u64)
    ensures
        popcount(x) <= 64,
{
    lemma_popcount_upto_bound(x, 64);
}

proof fn lemma_popcount_upto_zero(n: nat)
    ensures
        popcount_upto(0u64, n) == 0,
    decreases n,
{
    if n > 0 {
        assert(0u64 & 1 == 0) by (bit_vector);
        assert(0u64 >> 1 == 0u64) by (bit_vector);
        lemma_popcount_upto_zero((n - 1) as nat);
    }
}

fn count_ones_u64(x: u64) -> (r: u32)
    ensures
        r as nat == popcount(x),
        r <= 64,
{
    let mut d: u64 = x;
    let mut c: u32 = 0;
    let mut i: usize = 0;
    while i < 64
        invariant
            i <= 64,
            c <= i,
            c as nat + popcount_upto(d, (64 - i) as nat) == popcount(x),
        decreases 64 - i,
    {
        proof {
            assert(d & 1 <= 1) by (bit_vector);
        }
        c = c + (d & 1) as u32;
        d = d >> 1;
        i = i + 1;
    }
    proof {
        lemma_popcount_upto_bound(x, 64);
    }
    c
}

/// Bit distance between two 256-bit descriptors: the number of
/// positions where the four 64-bit words differ.
pub open spec fn spec_hamming(a: Seq<u64>, b: Seq<u64>) -> nat
    recommends
        a.len() == 4,
        b.len() == 4,
{
    popcount(a[0] ^ b[0]) + popcount(a[1] ^ b[1]) + popcount(a[2] ^ b[2]) + popcount(a[3] ^ b[3])
}

/// Popcount of the XOR of each pair of words, summed over the four words.
pub fn hamming_distance(a: &[u64; 4], b: &[u64; 4]) -> (r: u32)
    ensures
        r as nat == spec_hamming(a@, b@),
        r <= 256,
{
    let mut distance: u32 = 0;
    distance = distance + count_ones_u64(a[0] ^ b[0]);
    distance = distance + count_ones_u64(a[1] ^ b[1]);
    distance = distance + count_ones_u64(a[2] ^ b[2]);
    distance = distance + count_ones_u64(a[3] ^ b[3]);
    distance
}

/// The bit distance is a pseudometric bounded by the descriptor length:
/// zero between a descriptor and itself, symmetric in its arguments, and
/// never above 256.
pub proof fn lemma_hamming_metric(a: Seq<u64>, b: Seq<u64>)
    requires
        a.len() == 4,
        b.len() == 4,
    ensures
        spec_hamming(a, a) == 0,
        spec_hamming(a, b) == spec_hamming(b, a),
        spec_hamming(a, b) <= 256,
{
    assert forall|x: u64| #[trigger] popcount(x ^ x) == 0 by {
        assert(x ^ x == 0) by (bit_vector);
        lemma_popcount_upto_zero(64);
    }
    assert forall|x: u64, y: u64| #[trigger] popcount(x ^ y) == popcount(y ^ x) by {
        assert(x ^ y == y ^ x) by (bit_vector);
    }
    lemma_popcount_bound(a[0] ^ b[0]);
    lemma_popcount_bound(a[1] ^ b[1]);
    lemma_popcount_bound(a[2] ^ b[2]);
    lemma_popcount_bound(a[3] ^ b[3]);
}

/// Bit b of the word w.
pub open spec fn bit_at(w: u64, b: int) -> bool {
    (w >> (b as u64)) & 1 == 1
}

/// The 31x31 patch around (x, y) lies entirely inside the image.
pub open spec fn patch_fits(img: Raster, x: int, y: int) -> bool {
    15 <= x && x + 15 < img.width && 15 <= y && y + 15 < img.height
}

/// Comparison behind one descriptor bit: the intensity at the keypoint
/// plus the offset is less than the intensity at the keypoint minus it.
pub open spec fn brief_bit(img: Raster, x: int, y: int, off: (i32, i32)) -> bool {
    img.spec_pixel(x + off.0, y + off.1) < img.spec_pixel(x - off.0, y - off.1)
}

/// d is the descriptor of keypoint (x, y) for the offset table offs: when
/// the patch fits, bit i (word i/64, bit i%64) is set iff comparison i
/// holds; a keypoint whose patch does not fit gets the all-zero sentinel.
pub open spec fn spec_descriptor(img: Raster, x: int, y: int, offs: Seq<(i32, i32)>, d: Seq<u64>) -> bool {
    &&& d.len() == 4
    &&& if patch_fits(img, x, y) {
        forall|wi: int, b: int|
            0 <= wi < 4 && 0 <= b < 64 ==> #[trigger] bit_at(d[wi], b) == brief_bit(
                img,
                x,
                y,
                offs[wi * 64 + b],
            )
    } else {
        d == seq![0u64, 0u64, 0u64, 0u64]
    }
}

proof fn lemma_set_bit_at(w: u64, b: u64, k: int)
    requires
        b < 64,
        0 <= k < 64,
    ensures
        bit_at(w | (1u64 << b), k) == (k == b as int || bit_at(w, k)),
{
    let ku = k as u64;
    assert(b < 64 && ku < 64 ==> (((w | (1u64 << b)) >> ku) & 1 == 1 <==> (ku == b || ((w >> ku)
        & 1 == 1)))) by (bit_vector);
}

proof fn lemma_zero_bits(k: int)
    requires
        0 <= k < 64,
    ensures
        !bit_at(0u64, k),
{
    let ku = k as u64;
    assert(ku < 64 ==> (0u64 >> ku) & 1 == 0) by (bit_vector);
}

/// Bits of one descriptor word: every bit below upto (in descriptor bit
/// numbering) encodes its comparison, every bit at or above upto is clear.
spec fn word_ok(img: Raster, x: int, y: int, offs: Seq<(i32, i32)>, w: u64, wi: int, upto: int) -> bool {
    forall|b: int|
        0 <= b < 64 ==> #[trigger] bit_at(w, b) == if wi * 64 + b < upto {
            brief_bit(img, x, y, offs[wi * 64 + b])
        } else {
            false
        }
}

/// BRIEF-style binary descriptors: one 256-bit descriptor per keypoint, in
/// the keypoints' order, each sampled with the shared offset table.
pub fn brief(image: &Raster, keypoints: &Vec<(usize, usize)>, offsets: &Vec<(i32, i32)>) -> (r: Vec<
    [u64; 4],
>)
    requires
        image.wf(),
        offsets@.len() == 256,
        forall|k: int|
            0 <= k < 256 ==> -15 <= #[trigger] offsets@[k].0 <= 15 && -15 <= offsets@[k].1 <= 15,
        forall|k: int|
            0 <= k < keypoints@.len() ==> #[trigger] keypoints@[k].0 < image.width
                && keypoints@[k].1 < image.height,
    ensures
        r@.len() == keypoints@.len(),
        forall|k: int|
            0 <= k < keypoints@.len() ==> spec_descriptor(
                *image,
                keypoints@[k].0 as int,
                keypoints@[k].1 as int,
                offsets@,
                #[trigger] r@[k]@,
            ),
{
    let mut descriptors: Vec<[u64; 4]> = Vec::new();
    let mut k: usize = 0;
    while k < keypoints.len()
        invariant
            image.wf(),
            offsets@.len() == 256,
            forall|j: int|
                0 <= j < 256 ==> -15 <= #[trigger] offsets@[j].0 <= 15 && -15 <= offsets@[j].1
                    <= 15,
            forall|j: int|
                0 <= j < keypoints@.len() ==> #[trigger] keypoints@[j].0 < image.width
                    && keypoints@[j].1 < image.height,
            k <= keypoints@.len(),
            descriptors@.len() == k,
            forall|j: int|
                0 <= j < k ==> spec_descriptor(
                    *image,
                    keypoints@[j].0 as int,
                    keypoints@[j].1 as int,
                    offsets@,
                    #[trigger] descriptors@[j]@,
                ),
        decreases keypoints@.len() - k,
    {
        let (x, y) = keypoints[k];
        let fits: bool = x >= 15 && y >= 15 && image.width - x > 15 && image.height - y > 15;
        if !fits {
            let d: [u64; 4] = [0u64, 0u64, 0u64, 0u64];
            proof {
                assert(d@ =~= seq![0u64, 0u64, 0u64, 0u64]);
            }
            descriptors.push(d);
        } else {
            let mut w0: u64 = 0;
            let mut w1: u64 = 0;
            let mut w2: u64 = 0;
            let mut w3: u64 = 0;
            proof {
                assert forall|b: int| 0 <= b < 64 implies !bit_at(0u64, b) by {
                    lemma_zero_bits(b);
                }
            }
            let mut i: usize = 0;
            while i < 256
                invariant
                    image.wf(),
                    offsets@.len() == 256,
                    forall|j: int|
                        0 <= j < 256 ==> -15 <= #[trigger] offsets@[j].0 <= 15 && -15
                            <= offsets@[j].1 <= 15,
                    i <= 256,
                    patch_fits(*image, x as int, y as int),
                    x < image.width,
                    y < image.height,
                    word_ok(*image, x as int, y as int, offsets@, w0, 0, i as int),
                    word_ok(*image, x as int, y as int, offsets@, w1, 1, i as int),
                    word_ok(*image, x as int, y as int, offsets@, w2, 2, i as int),
                    word_ok(*image, x as int, y as int, offsets@, w3, 3, i as int),
                decreases 256 - i,
            {
                let (dx, dy) = offsets[i];
                let x1: usize = offset_coord(x, dx);
                let y1: usize = offset_coord(y, dy);
                let x2: usize = offset_coord(x, -dx);
                let y2: usize = offset_coord(y, -dy);
                let intensity1: u8 = image.get(x1, y1);
                let intensity2: u8 = image.get(x2, y2);
                let ghost old_w0 = w0;
                let ghost old_w1 = w1;
                let ghost old_w2 = w2;
                let ghost old_w3 = w3;
                if intensity1 < intensity2 {
                    let idx: usize = i / 64;
                    let bit: u64 = (i % 64) as u64;
                    let mask: u64 = 1u64 << bit;
                    if idx == 0 {
                        w0 = w0 | mask;
                    } else if idx == 1 {
                        w1 = w1 | mask;
                    } else if idx == 2 {
                        w2 = w2 | mask;
                    } else {
                        w3 = w3 | mask;
                    }
                    proof {
                        assert forall|b: int| 0 <= b < 64 implies #[trigger] bit_at(
                            old_w0 | mask,
                            b,
                        ) == (b == (i as int) % 64 || bit_at(old_w0, b)) by {
                            lemma_set_bit_at(old_w0, bit, b);
                        }
                        assert forall|b: int| 0 <= b < 64 implies #[trigger] bit_at(
                            old_w1 | mask,
                            b,
                        ) == (b == (i as int) % 64 || bit_at(old_w1, b)) by {
                            lemma_set_bit_at(old_w1, bit, b);
                        }
                        assert forall|b: int| 0 <= b < 64 implies #[trigger] bit_at(
                            old_w2 | mask,
                            b,
                        ) == (b == (i as int) % 64 || bit_at(old_w2, b)) by {
                            lemma_set_bit_at(old_w2, bit, b);
                        }
                        assert forall|b: int| 0 <= b < 64 implies #[trigger] bit_at(
                            old_w3 | mask,
                            b,
                        ) == (b == (i as int) % 64 || bit_at(old_w3, b)) by {
                            lemma_set_bit_at(old_w3, bit, b);
                        }
                    }
                }
                proof {
                    assert(brief_bit(*image, x as int, y as int, offsets@[i as int]) == (intensity1
                        < intensity2));
                    assert((i as int) / 64 * 64 + (i as int) % 64 == i as int);
                }
                i = i + 1;
            }
            let d: [u64; 4] = [w0, w1, w2, w3];
            proof {
                assert(d@ =~= seq![w0, w1, w2, w3]);
                assert forall|wi: int, b: int| 0 <= wi < 4 && 0 <= b < 64 implies #[trigger] bit_at(
                    d@[wi],
                    b,
                ) == brief_bit(*image, x as int, y as int, offsets@[wi * 64 + b]) by {
                    assert(wi * 64 + b < 256);
                }
            }
            descriptors.push(d);
        }
        k = k + 1;
    }
    descriptors
}

/// Relies on rand::random_range on the thread-local generator: the result
/// of sampling an inclusive integer range lies in that range, which is
/// never empty here.
#[verifier::external_body]
fn random_in_range(lo: i32, hi: i32) -> (r: i32)
    requires
        lo <= hi,
    ensures
        lo <= r <= hi,
{
    rand::random_range(lo..=hi)
}

/// The shared BRIEF sampling table: 256 random offset pairs, each
/// coordinate uniform in [-15, 15]. The table must be generated once per
/// matching session and handed to every extraction whose descriptors will
/// be compared; tables drawn separately per image are not comparable.
pub fn make_offset_table() -> (r: Vec<(i32, i32)>)
    ensures
        r@.len() == 256,
        forall|k: int| 0 <= k < 256 ==> -15 <= #[trigger] r@[k].0 <= 15 && -15 <= r@[k].1 <= 15,
{
    let mut offsets: Vec<(i32, i32)> = Vec::new();
    let mut i: usize = 0;
    while i < 256
        invariant
            i <= 256,
            offsets@.len() == i,
            forall|k: int|
                0 <= k < i ==> -15 <= #[trigger] offsets@[k].0 <= 15 && -15 <= offsets@[k].1 <= 15,
        decreases 256 - i,
    {
        let dx: i32 = random_in_range(-15, 15);
        let dy: i32 = random_in_range(-15, 15);
        offsets.push((dx, dy));
        i = i + 1;
    }
    offsets
}

} // verus!
