//! Sample statistics: percentiles and population standard deviation.
//!
//! Latency samples are integers in microseconds.  Percentile selection is an
//! order statistic over the sorted sample list, so its result depends only on
//! the multiset of samples, never on their arrival order.

use vstd::prelude::*;
use vstd::seq_lib::*;
use vstd::relations::{sorted_by, total_ordering};
use vstd::arithmetic::div_mod::{lemma_div_is_ordered, lemma_div_multiples_vanish};

verus! {

/// Maximum valid latency expressed in whole microseconds.
pub const MAX_LATENCY_US: u64 = 60_000_000;

/// The ordering by which samples are sorted.
pub open spec fn sample_le() -> spec_fn(u64, u64) -> bool {
    |x: u64, y: u64| x <= y
}

/// `sample_le` is a total order on samples.
pub proof fn lemma_sample_le_total_ordering()
    ensures
        total_ordering(sample_le()),
{
}

/// Latency percentiles over the collected samples, in microseconds.
#[derive(Clone, Copy, Debug, PartialEq, Eq, Structural)]
pub struct Percentiles {
    /// 50th percentile (median).
    pub p50: u64,
    /// 75th percentile.
    pub p75: u64,
    /// 90th percentile.
    pub p90: u64,
    /// 95th percentile.
    pub p95: u64,
    /// 99th percentile.
    pub p99: u64,
    /// 99.9th percentile.
    pub p999: u64,
}

impl Default for Percentiles {
    /// All-zero percentiles, the value reported for an empty sample list.
    fn default() -> (r: Percentiles)
        ensures
            r == Percentiles::spec_zero(),
    {
        Percentiles { p50: 0, p75: 0, p90: 0, p95: 0, p99: 0, p999: 0 }
    }
}

impl Percentiles {
    /// The all-zero percentiles.
    pub open spec fn spec_zero() -> Percentiles {
        Percentiles { p50: 0, p75: 0, p90: 0, p95: 0, p99: 0, p999: 0 }
    }
}

/// Index of the p/q-th percentile in a sorted list of `len` samples:
/// `len * p / q`, moved down one (not below zero) and clamped to the list.
pub open spec fn spec_percentile_index(len: int, p: int, q: int) -> int {
    let raw = len * p / q;
    let dec = if raw >= 1 { raw - 1 } else { 0 };
    if dec <= len - 1 { dec } else { len - 1 }
}

/// The percentiles of a sample list: order statistics of its sorted form.
/// An empty list yields all-zero percentiles.
pub open spec fn spec_percentiles(s: Seq<u64>) -> Percentiles {
    if s.len() == 0 {
        Percentiles::spec_zero()
    } else {
        let sorted = s.sort_by(sample_le());
        let n = s.len() as int;
        Percentiles {
            p50: sorted[spec_percentile_index(n, 50, 100)],
            p75: sorted[spec_percentile_index(n, 75, 100)],
            p90: sorted[spec_percentile_index(n, 90, 100)],
            p95: sorted[spec_percentile_index(n, 95, 100)],
            p99: sorted[spec_percentile_index(n, 99, 100)],
            p999: sorted[spec_percentile_index(n, 999, 1000)],
        }
    }
}

/// Percentiles depend only on the multiset of samples: shuffling the input
/// before calling yields identical output.
pub proof fn lemma_percentiles_order_independent(s1: Seq<u64>, s2: Seq<u64>)
    requires
        s1.to_multiset() == s2.to_multiset(),
    ensures
        spec_percentiles(s1) == spec_percentiles(s2),
{
    s1.to_multiset_ensures();
    s2.to_multiset_ensures();
    assert(s1.len() == s2.len());
    if s1.len() != 0 {
        lemma_sample_le_total_ordering();
        s1.lemma_sort_by_ensures(sample_le());
        s2.lemma_sort_by_ensures(sample_le());
        lemma_sorted_unique(s1.sort_by(sample_le()), s2.sort_by(sample_le()), sample_le());
    }
}

/// Insert a value into a sorted vector, keeping it sorted.
fn insert_sorted(out: &mut Vec<u64>, val: u64)
    requires
        sorted_by(old(out)@, sample_le()),
    ensures
        sorted_by(final(out)@, sample_le()),
        final(out)@.to_multiset() == old(out)@.to_multiset().insert(val),
        final(out)@.len() == old(out)@.len() + 1,
{
    let mut idx: usize = 0;
    while idx < out.len() && out[idx] <= val
        invariant
            idx <= out@.len(),
            out@ == old(out)@,
            forall|j: int| 0 <= j < idx ==> out@[j] <= val,
        decreases out@.len() - idx,
    {
        idx = idx + 1;
    }
    let ghost s0 = out@;
    let ghost pos = idx as int;
    out.insert(idx, val);
    proof {
        broadcast use to_multiset_insert;

        s0.insert_ensures(pos, val);
        assert forall|i: int, j: int| 0 <= i < j < out@.len() implies #[trigger] sample_le()(
            out@[i],
            out@[j],
        ) by {
            if j < pos {
                assert(out@[i] == s0[i] && out@[j] == s0[j]);
            } else if i < pos && j == pos {
                assert(out@[i] == s0[i] && out@[j] == val);
            } else if i < pos && j > pos {
                assert(out@[i] == s0[i] && out@[j] == s0[j - 1]);
                if j - 1 < pos {
                } else {
                    // s0[j-1] lies at or past the stop position, so it exceeds val
                    assert(pos < s0.len() && s0[pos] > val);
                    if j - 1 > pos {
                        assert(sample_le()(s0[pos], s0[j - 1]));
                    }
                    assert(s0[i] <= val);
                }
            } else if i == pos {
                assert(out@[i] == val && out@[j] == s0[j - 1]);
                assert(pos < s0.len() && s0[pos] > val);
                if j - 1 > pos {
                    assert(sample_le()(s0[pos], s0[j - 1]));
                }
            } else {
                assert(out@[i] == s0[i - 1] && out@[j] == s0[j - 1]);
                assert(sample_le()(s0[i - 1], s0[j - 1]));
            }
        }
    }
}

/// Sort a sample list ascending; the result holds exactly the input samples.
pub fn sort_samples(samples: &Vec<u64>) -> (r: Vec<u64>)
    ensures
        r@ == samples@.sort_by(sample_le()),
        r@.len() == samples@.len(),
        sorted_by(r@, sample_le()),
{
    let mut out: Vec<u64> = Vec::new();
    let mut i: usize = 0;
    proof {
        assert(out@ =~= samples@.subrange(0, 0));
    }
    while i < samples.len()
        invariant
            i <= samples@.len(),
            sorted_by(out@, sample_le()),
            out@.to_multiset() == samples@.subrange(0, i as int).to_multiset(),
            out@.len() == i,
        decreases samples@.len() - i,
    {
        let ghost prefix = samples@.subrange(0, i as int);
        insert_sorted(&mut out, samples[i]);
        proof {
            broadcast use group_to_multiset_ensures;

            assert(samples@.subrange(0, i + 1 as int) =~= prefix.push(samples@[i as int]));
        }
        i = i + 1;
    }
    proof {
        broadcast use group_to_multiset_ensures;

        assert(samples@.subrange(0, samples@.len() as int) =~= samples@);
        lemma_sample_le_total_ordering();
        samples@.lemma_sort_by_ensures(sample_le());
        lemma_sorted_unique(out@, samples@.sort_by(sample_le()), sample_le());
    }
    out
}

/// Percentile index as computed at run time.
fn percentile_index(len: usize, p: u64, q: u64) -> (r: usize)
    requires
        1 <= len,
        0 < p < q,
        q <= 1000,
    ensures
        r == spec_percentile_index(len as int, p as int, q as int),
        r < len,
{
    proof {
        assert((len as int) * (p as int) <= (len as int) * 1000) by (nonlinear_arith)
            requires
                0 < p <= 1000,
                len >= 1,
        ;
    }
    let raw: u128 = (len as u128) * (p as u128) / (q as u128);
    let dec: u128 = if raw >= 1 { raw - 1 } else { 0 };
    if dec <= (len - 1) as u128 {
        dec as usize
    } else {
        len - 1
    }
}

/// Compute latency percentiles over the given samples.
///
/// The result is a pure function of the multiset of samples; an empty input
/// yields all-zero percentiles.
pub fn calculate_percentiles(samples: Vec<u64>) -> (r: Percentiles)
    ensures
        r == spec_percentiles(samples@),
        samples@.len() == 0 ==> r == Percentiles::spec_zero(),
{
    if samples.len() == 0 {
        return Percentiles::default();
    }
    let sorted = sort_samples(&samples);
    let len = sorted.len();
    let i50 = percentile_index(len, 50, 100);
    let i75 = percentile_index(len, 75, 100);
    let i90 = percentile_index(len, 90, 100);
    let i95 = percentile_index(len, 95, 100);
    let i99 = percentile_index(len, 99, 100);
    let i999 = percentile_index(len, 999, 1000);
    Percentiles {
        p50: sorted[i50],
        p75: sorted[i75],
        p90: sorted[i90],
        p95: sorted[i95],
        p99: sorted[i99],
        p999: sorted[i999],
    }
}

/// Sum of the samples, over mathematical integers.
pub open spec fn spec_seq_sum(s: Seq<u64>) -> int
    decreases s.len(),
{
    if s.len() == 0 {
        0
    } else {
        spec_seq_sum(s.drop_last()) + s.last()
    }
}

/// Least sample of a non-empty list.
pub open spec fn spec_seq_min(s: Seq<u64>) -> u64
    recommends
        s.len() >= 1,
    decreases s.len(),
{
    if s.len() <= 1 {
        s[0]
    } else {
        let m = spec_seq_min(s.drop_last());
        if s.last() < m {
            s.last()
        } else {
            m
        }
    }
}

/// Greatest sample of a non-empty list.
pub open spec fn spec_seq_max(s: Seq<u64>) -> u64
    recommends
        s.len() >= 1,
    decreases s.len(),
{
    if s.len() <= 1 {
        s[0]
    } else {
        let m = spec_seq_max(s.drop_last());
        if s.last() > m {
            s.last()
        } else {
            m
        }
    }
}

/// A sum of bounded samples is bounded by the count times the bound.
pub proof fn lemma_sum_bounded(s: Seq<u64>, bound: u64)
    requires
        forall|i: int| 0 <= i < s.len() ==> s[i] <= bound,
    ensures
        0 <= spec_seq_sum(s),
        spec_seq_sum(s) <= s.len() * bound,
    decreases s.len(),
{
    if s.len() > 0 {
        lemma_sum_bounded(s.drop_last(), bound);
        assert((s.len() - 1) * bound + bound == s.len() * bound) by (nonlinear_arith);
    }
}

/// A mean of values bounded by `bound` is itself bounded by `bound`.
pub proof fn lemma_avg_bounded(total: int, n: int, bound: int)
    requires
        n >= 1,
        0 <= total,
        total <= n * bound,
        bound >= 0,
    ensures
        0 <= total / n <= bound,
{
    lemma_div_is_ordered(total, n * bound, n);
    lemma_div_multiples_vanish(bound, n);
    vstd::arithmetic::div_mod::lemma_div_pos_is_pos(total, n);
}

/// Sum of the samples, each bounded by the maximum valid latency.
pub fn sum_samples(samples: &Vec<u64>) -> (r: u128)
    requires
        forall|i: int| 0 <= i < samples@.len() ==> samples@[i] <= MAX_LATENCY_US,
    ensures
        r == spec_seq_sum(samples@),
{
    let mut sum: u128 = 0;
    let mut i: usize = 0;
    proof {
        assert(samples@.subrange(0, 0) =~= Seq::<u64>::empty());
    }
    while i < samples.len()
        invariant
            i <= samples@.len(),
            forall|k: int| 0 <= k < samples@.len() ==> samples@[k] <= MAX_LATENCY_US,
            sum == spec_seq_sum(samples@.subrange(0, i as int)),
            sum <= (i as int) * (MAX_LATENCY_US as int),
        decreases samples@.len() - i,
    {
        proof {
            assert(samples@.subrange(0, (i + 1) as int).drop_last() =~= samples@.subrange(
                0,
                i as int,
            ));
            assert((i as int) * (MAX_LATENCY_US as int) + MAX_LATENCY_US == ((i + 1) as int) * (
            MAX_LATENCY_US as int)) by (nonlinear_arith);
        }
        sum = sum + (samples[i] as u128);
        i = i + 1;
    }
    proof {
        assert(samples@.subrange(0, samples@.len() as int) =~= samples@);
    }
    sum
}

/// Least sample of a non-empty list.
pub fn min_sample(samples: &Vec<u64>) -> (r: u64)
    requires
        samples@.len() >= 1,
    ensures
        r == spec_seq_min(samples@),
{
    let mut m: u64 = samples[0];
    let mut i: usize = 1;
    proof {
        assert(samples@.subrange(0, 1) =~= seq![samples@[0]]);
    }
    while i < samples.len()
        invariant
            1 <= i <= samples@.len(),
            m == spec_seq_min(samples@.subrange(0, i as int)),
        decreases samples@.len() - i,
    {
        proof {
            assert(samples@.subrange(0, (i + 1) as int).drop_last() =~= samples@.subrange(
                0,
                i as int,
            ));
        }
        let x = samples[i];
        if x < m {
            m = x;
        }
        i = i + 1;
    }
    proof {
        assert(samples@.subrange(0, samples@.len() as int) =~= samples@);
    }
    m
}

/// Greatest sample of a non-empty list.
pub fn max_sample(samples: &Vec<u64>) -> (r: u64)
    requires
        samples@.len() >= 1,
    ensures
        r == spec_seq_max(samples@),
{
    let mut m: u64 = samples[0];
    let mut i: usize = 1;
    proof {
        assert(samples@.subrange(0, 1) =~= seq![samples@[0]]);
    }
    while i < samples.len()
        invariant
            1 <= i <= samples@.len(),
            m == spec_seq_max(samples@.subrange(0, i as int)),
        decreases samples@.len() - i,
    {
        proof {
            assert(samples@.subrange(0, (i + 1) as int).drop_last() =~= samples@.subrange(
                0,
                i as int,
            ));
        }
        let x = samples[i];
        if x > m {
            m = x;
        }
        i = i + 1;
    }
    proof {
        assert(samples@.subrange(0, samples@.len() as int) =~= samples@);
    }
    m
}

/// Sum of squared deviations from `mean`, over mathematical integers.
pub open spec fn spec_sum_sq_dev(s: Seq<u64>, mean: u64) -> int
    decreases s.len(),
{
    if s.len() == 0 {
        0
    } else {
        spec_sum_sq_dev(s.drop_last(), mean) + (s.last() - mean) * (s.last() - mean)
    }
}

/// Integer square root: the greatest `r` with `r * r <= n`.
pub open spec fn spec_isqrt(n: int) -> int
    decreases (if n >= 0 { n } else { 0 }),
{
    if n <= 0 {
        0
    } else {
        let r = spec_isqrt(n - 1);
        if (r + 1) * (r + 1) <= n {
            r + 1
        } else {
            r
        }
    }
}

/// `spec_isqrt` brackets its argument between consecutive squares.
pub proof fn lemma_isqrt_bracket(n: int)
    requires
        n >= 0,
    ensures
        spec_isqrt(n) >= 0,
        spec_isqrt(n) * spec_isqrt(n) <= n,
        n < (spec_isqrt(n) + 1) * (spec_isqrt(n) + 1),
    decreases n,
{
    if n > 0 {
        lemma_isqrt_bracket(n - 1);
        let r = spec_isqrt(n - 1);
        assert(n - 1 < (r + 1) * (r + 1));
        if (r + 1) * (r + 1) <= n {
            assert(spec_isqrt(n) == r + 1);
            assert((r + 1) * (r + 1) < (r + 1 + 1) * (r + 1 + 1)) by (nonlinear_arith)
                requires
                    r >= 0,
            ;
            assert(n < (r + 1 + 1) * (r + 1 + 1));
        } else {
            assert(spec_isqrt(n) == r);
        }
    }
}

/// The bracket determines the integer square root uniquely.
pub proof fn lemma_isqrt_unique(n: int, r: int)
    requires
        n >= 0,
        r >= 0,
        r * r <= n,
        n < (r + 1) * (r + 1),
    ensures
        r == spec_isqrt(n),
{
    lemma_isqrt_bracket(n);
    let q = spec_isqrt(n);
    if r < q {
        assert((r + 1) * (r + 1) <= q * q) by (nonlinear_arith)
            requires
                0 <= r < q,
        ;
    } else if q < r {
        assert((q + 1) * (q + 1) <= r * r) by (nonlinear_arith)
            requires
                0 <= q < r,
        ;
    }
}

/// Integer square root of a bounded value, by binary search.
fn isqrt(n: u128) -> (r: u64)
    requires
        n < 0x10000000000000000,
    ensures
        r == spec_isqrt(n as int),
{
    let mut lo: u64 = 0;
    let mut hi: u64 = 0x100000000;
    // invariant: lo * lo <= n < hi * hi
    proof {
        assert((0x100000000u64 as int) * (0x100000000u64 as int) == 0x10000000000000000)
            by (nonlinear_arith);
    }
    while lo + 1 < hi
        invariant
            lo < hi,
            hi <= 0x100000000,
            (lo as int) * (lo as int) <= n as int,
            (n as int) < (hi as int) * (hi as int),
        decreases hi - lo,
    {
        let mid: u64 = lo + (hi - lo) / 2;
        proof {
            assert((mid as int) * (mid as int) <= 0x10000000000000000) by (nonlinear_arith)
                requires
                    0 <= mid <= 0x100000000,
            ;
        }
        let sq: u128 = (mid as u128) * (mid as u128);
        if sq <= n {
            lo = mid;
        } else {
            hi = mid;
        }
    }
    proof {
        lemma_isqrt_unique(n as int, lo as int);
    }
    lo
}

/// Population standard deviation of the samples about `mean`, rounded down
/// to a whole microsecond: `isqrt(sum((x - mean)^2) / n)`.  Defined as 0 for
/// one or no samples.
pub open spec fn spec_std_dev(s: Seq<u64>, mean: u64) -> int {
    if s.len() <= 1 {
        0
    } else {
        spec_isqrt(spec_sum_sq_dev(s, mean) / s.len() as int)
    }
}

/// Every partial sum of squared deviations of bounded samples is bounded.
proof fn lemma_sum_sq_dev_bound(s: Seq<u64>, mean: u64)
    requires
        forall|i: int| 0 <= i < s.len() ==> s[i] <= MAX_LATENCY_US,
        mean <= MAX_LATENCY_US,
    ensures
        0 <= spec_sum_sq_dev(s, mean),
        spec_sum_sq_dev(s, mean) <= s.len() * (MAX_LATENCY_US as int) * (MAX_LATENCY_US as int),
    decreases s.len(),
{
    let m = MAX_LATENCY_US as int;
    if s.len() == 0 {
    } else {
        lemma_sum_sq_dev_bound(s.drop_last(), mean);
        let d = s.last() - mean;
        assert(-m <= d <= m);
        assert(d * d <= m * m) by (nonlinear_arith)
            requires
                -m <= d <= m,
                m >= 0,
        ;
        assert((s.len() - 1) * m * m + m * m == s.len() * m * m) by (nonlinear_arith);
        assert(d * d >= 0) by (nonlinear_arith);
    }
}

/// Compute the population standard deviation of the samples about `mean`.
///
/// Samples and mean are bounded by the maximum valid latency; a list of one
/// or no samples has standard deviation 0.
pub fn calculate_std_dev(samples: &Vec<u64>, mean: u64) -> (r: u64)
    requires
        forall|i: int| 0 <= i < samples@.len() ==> samples@[i] <= MAX_LATENCY_US,
        mean <= MAX_LATENCY_US,
    ensures
        r == spec_std_dev(samples@, mean),
        samples@.len() <= 1 ==> r == 0,
{
    let len = samples.len();
    if len <= 1 {
        return 0;
    }
    let m_sq: u128 = (MAX_LATENCY_US as u128) * (MAX_LATENCY_US as u128);
    let mut sum: u128 = 0;
    let mut i: usize = 0;
    proof {
        assert(samples@.subrange(0, 0) =~= Seq::<u64>::empty());
    }
    while i < len
        invariant
            i <= len,
            len == samples@.len(),
            forall|k: int| 0 <= k < samples@.len() ==> samples@[k] <= MAX_LATENCY_US,
            mean <= MAX_LATENCY_US,
            m_sq == (MAX_LATENCY_US as int) * (MAX_LATENCY_US as int),
            sum == spec_sum_sq_dev(samples@.subrange(0, i as int), mean),
            sum <= (i as int) * (MAX_LATENCY_US as int) * (MAX_LATENCY_US as int),
        decreases len - i,
    {
        let x = samples[i];
        let diff: u64 = if x >= mean {
            x - mean
        } else {
            mean - x
        };
        proof {
            assert((diff as int) * (diff as int) <= (MAX_LATENCY_US as int) * (
            MAX_LATENCY_US as int)) by (nonlinear_arith)
                requires
                    0 <= diff <= MAX_LATENCY_US,
            ;
        }
        let sq: u128 = (diff as u128) * (diff as u128);
        proof {
            let d = samples@[i as int] - mean;
            let m = MAX_LATENCY_US as int;
            assert((diff as int) * (diff as int) == d * d) by (nonlinear_arith)
                requires
                    diff == (if d >= 0 { d } else { -d }),
            ;
            assert(d * d <= m * m) by (nonlinear_arith)
                requires
                    -m <= d <= m,
                    m >= 0,
            ;
            assert((i as int) * m * m + m * m == (i + 1) as int * m * m) by (nonlinear_arith);
            assert(samples@.subrange(0, (i + 1) as int).drop_last() =~= samples@.subrange(
                0,
                i as int,
            ));
            assert((i + 1) as int * m * m <= samples@.len() * m * m) by (nonlinear_arith)
                requires
                    i + 1 <= samples@.len(),
                    m >= 0,
            ;
        }
        sum = sum + sq;
        i = i + 1;
    }
    proof {
        assert(samples@.subrange(0, len as int) =~= samples@);
    }
    let variance: u128 = sum / (len as u128);
    proof {
        let m = MAX_LATENCY_US as int;
        lemma_div_is_ordered(sum as int, (len as int) * (m * m), len as int);
        lemma_div_multiples_vanish(m * m, len as int);
        assert((len as int) * (m * m) == (len as int) * m * m) by (nonlinear_arith);
        assert(m * m < 0x10000000000000000);
    }
    let r = isqrt(variance);
    r
}

} // verus!
