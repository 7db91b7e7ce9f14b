use vstd::prelude::*;
use crate::descriptor::spec_hamming;
use crate::features::ORB;

verus! {

/// The ratio-scaled second-best distance, truncated to an integer:
/// four fifths, rounded toward zero.
pub open spec fn ratio_scaled(second: int) -> int {
    (4 * second) / 5
}

/// One pass of the best/second-best scan of descriptor d over the first n
/// elements of b: (best distance, second-best distance, index of the first
/// element that reached the best distance). Ties keep the earlier index.
pub open spec fn scan_best(d: Seq<u64>, b: Seq<ORB>, n: nat) -> (int, int, Option<usize>)
    recommends
        n <= b.len(),
    decreases n,
{
    if n == 0 {
        (u32::MAX as int, u32::MAX as int, None::<usize>)
    } else {
        let prev = scan_best(d, b, (n - 1) as nat);
        let dist = spec_hamming(d, b[n - 1].descriptor@) as int;
        if dist < prev.0 {
            (dist, prev.0, Some((n - 1) as usize))
        } else if dist < prev.1 {
            (prev.0, dist, prev.2)
        } else {
            prev
        }
    }
}

/// The ratio acceptance rule on a scan result: the best distance must be
/// strictly below the truncated four fifths of the second-best distance.
pub open spec fn accepts(s: (int, int, Option<usize>)) -> bool {
    s.0 < ratio_scaled(s.1) && s.2.is_some()
}

/// The match list for the first n elements of a against all of b: one pair
/// (i, best index in b) per accepted element of a, in order of i.
pub open spec fn matches_upto(a: Seq<ORB>, b: Seq<ORB>, n: nat) -> Seq<(usize, usize)>
    recommends
        n <= a.len(),
    decreases n,
{
    if n == 0 {
        Seq::empty()
    } else {
        let m = matches_upto(a, b, (n - 1) as nat);
        let s = scan_best(a[n - 1].descriptor@, b, b.len());
        if accepts(s) {
            m.push((((n - 1) as usize), s.2.unwrap()))
        } else {
            m
        }
    }
}

/// The full match list: at most one pair per element of a, in order.
pub open spec fn spec_matches(a: Seq<ORB>, b: Seq<ORB>) -> Seq<(usize, usize)> {
    matches_upto(a, b, a.len())
}

proof fn lemma_scan_best_index(d: Seq<u64>, b: Seq<ORB>, n: nat)
    ensures
        scan_best(d, b, n).2.is_some() ==> 0 <= scan_best(d, b, n).2.unwrap() < n,
    decreases n,
{
    if n > 0 {
        lemma_scan_best_index(d, b, (n - 1) as nat);
    }
}

proof fn lemma_matches_upto_wf(a: Seq<ORB>, b: Seq<ORB>, n: nat)
    requires
        n <= usize::MAX,
    ensures
        matches_upto(a, b, n).len() <= n,
        forall|k: int|
            0 <= k < matches_upto(a, b, n).len() ==> {
                let m = #[trigger] matches_upto(a, b, n)[k];
                m.0 < n && m.1 < b.len()
            },
        forall|k1: int, k2: int|
            0 <= k1 < k2 < matches_upto(a, b, n).len() ==> matches_upto(a, b, n)[k1].0
                < matches_upto(a, b, n)[k2].0,
    decreases n,
{
    if n > 0 {
        lemma_matches_upto_wf(a, b, (n - 1) as nat);
        lemma_scan_best_index(a[n - 1].descriptor@, b, b.len());
        let prev = matches_upto(a, b, (n - 1) as nat);
        let cur = matches_upto(a, b, n);
        let s = scan_best(a[n - 1].descriptor@, b, b.len());
        if accepts(s) {
            assert(cur == prev.push((((n - 1) as usize), s.2.unwrap())));
            assert forall|k: int| 0 <= k < cur.len() implies {
                let m = #[trigger] cur[k];
                m.0 < n && m.1 < b.len()
            } by {
                if k < prev.len() {
                    assert(cur[k] == prev[k]);
                } else {
                    assert(cur[k] == (((n - 1) as usize), s.2.unwrap()));
                }
            }
            assert forall|k1: int, k2: int| 0 <= k1 < k2 < cur.len() implies cur[k1].0
                < cur[k2].0 by {
                assert(cur[k1] == prev[k1]);
                if k2 < prev.len() {
                    assert(cur[k2] == prev[k2]);
                } else {
                    assert(cur[k2] == (((n - 1) as usize), s.2.unwrap()));
                    assert((prev[k1].0 as int) < n - 1);
                }
            }
        }
    }
}

/// Match lists are well-formed: each pair indexes a real element of each
/// input, the first components are strictly increasing (so an element of
/// the first input yields at most one match), and there are no more
/// matches than elements of the first input.
pub proof fn lemma_matches_well_formed(a: Seq<ORB>, b: Seq<ORB>)
    requires
        a.len() <= usize::MAX,
    ensures
        spec_matches(a, b).len() <= a.len(),
        forall|k: int|
            0 <= k < spec_matches(a, b).len() ==> {
                let m = #[trigger] spec_matches(a, b)[k];
                m.0 < a.len() && m.1 < b.len()
            },
        forall|k1: int, k2: int|
            0 <= k1 < k2 < spec_matches(a, b).len() ==> spec_matches(a, b)[k1].0 < spec_matches(
                a,
                b,
            )[k2].0,
{
    lemma_matches_upto_wf(a, b, a.len());
}

/// The scan keeps its two accumulators ordered: the best distance never
/// exceeds the second-best.
pub proof fn lemma_scan_best_ordered(d: Seq<u64>, b: Seq<ORB>, n: nat)
    ensures
        scan_best(d, b, n).0 <= scan_best(d, b, n).1,
    decreases n,
{
    if n > 0 {
        lemma_scan_best_ordered(d, b, (n - 1) as nat);
    }
}

/// Ratio rule: when the best distance equals the second-best distance the
/// match is rejected; a best distance of zero is accepted whenever the
/// second-best distance is at least two and a best index exists. (With a
/// second-best distance of exactly one, the truncated threshold is zero,
/// so a zero best distance is rejected.)
pub proof fn lemma_ratio_rule(idx: Option<usize>, best: int, second: int)
    requires
        0 <= best <= second,
    ensures
        best == second ==> !accepts((best, second, idx)),
        best == 0 && second >= 2 && idx.is_some() ==> accepts((best, second, idx)),
{
}

} // verus!
