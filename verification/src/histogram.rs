//! Latency histogram with fixed microsecond buckets.
//!
//! Buckets are half-open below their upper bound; every sample lands in
//! exactly one bucket, so the bucket total always equals the number of
//! samples added.

use vstd::prelude::*;
use crate::types::{
    HISTOGRAM_BUCKET_1MS, HISTOGRAM_BUCKET_5MS, HISTOGRAM_BUCKET_10MS, HISTOGRAM_BUCKET_50MS,
    HISTOGRAM_BUCKET_100MS,
};

verus! {

/// Latency histogram buckets, counts of samples by latency in microseconds.
#[derive(Clone, Copy, Debug, PartialEq, Eq, Structural)]
pub struct LatencyHistogram {
    /// 0-1ms bucket.
    pub bucket_0_1ms: u64,
    /// 1-5ms bucket.
    pub bucket_1_5ms: u64,
    /// 5-10ms bucket.
    pub bucket_5_10ms: u64,
    /// 10-50ms bucket.
    pub bucket_10_50ms: u64,
    /// 50-100ms bucket.
    pub bucket_50_100ms: u64,
    /// 100ms+ bucket.
    pub bucket_100ms_plus: u64,
}

/// Total number of samples recorded, over all buckets.
pub open spec fn spec_hist_sum(h: LatencyHistogram) -> int {
    h.bucket_0_1ms + h.bucket_1_5ms + h.bucket_5_10ms + h.bucket_10_50ms + h.bucket_50_100ms
        + h.bucket_100ms_plus
}

/// The histogram after one sample of `latency_us` microseconds: exactly the
/// bucket whose half-open range holds the sample is incremented.
pub open spec fn spec_hist_add(h: LatencyHistogram, latency_us: u64) -> LatencyHistogram {
    if latency_us < HISTOGRAM_BUCKET_1MS {
        LatencyHistogram { bucket_0_1ms: (h.bucket_0_1ms + 1) as u64, ..h }
    } else if latency_us < HISTOGRAM_BUCKET_5MS {
        LatencyHistogram { bucket_1_5ms: (h.bucket_1_5ms + 1) as u64, ..h }
    } else if latency_us < HISTOGRAM_BUCKET_10MS {
        LatencyHistogram { bucket_5_10ms: (h.bucket_5_10ms + 1) as u64, ..h }
    } else if latency_us < HISTOGRAM_BUCKET_50MS {
        LatencyHistogram { bucket_10_50ms: (h.bucket_10_50ms + 1) as u64, ..h }
    } else if latency_us < HISTOGRAM_BUCKET_100MS {
        LatencyHistogram { bucket_50_100ms: (h.bucket_50_100ms + 1) as u64, ..h }
    } else {
        LatencyHistogram { bucket_100ms_plus: (h.bucket_100ms_plus + 1) as u64, ..h }
    }
}

impl Default for LatencyHistogram {
    /// The empty histogram.
    fn default() -> (r: LatencyHistogram)
        ensures
            r == LatencyHistogram::spec_empty(),
    {
        LatencyHistogram {
            bucket_0_1ms: 0,
            bucket_1_5ms: 0,
            bucket_5_10ms: 0,
            bucket_10_50ms: 0,
            bucket_50_100ms: 0,
            bucket_100ms_plus: 0,
        }
    }
}

impl LatencyHistogram {
    /// The histogram with every bucket zero.
    pub open spec fn spec_empty() -> LatencyHistogram {
        LatencyHistogram {
            bucket_0_1ms: 0,
            bucket_1_5ms: 0,
            bucket_5_10ms: 0,
            bucket_10_50ms: 0,
            bucket_50_100ms: 0,
            bucket_100ms_plus: 0,
        }
    }

    /// Create an empty histogram.
    pub fn new() -> (r: LatencyHistogram)
        ensures
            r == LatencyHistogram::spec_empty(),
    {
        Self::default()
    }

    /// Add a sample, given in microseconds, to the bucket it falls in.
    ///
    /// The bucket total grows by exactly one: no sample is ever dropped or
    /// double-counted.
    pub fn add_sample(&mut self, latency_us: u64)
        requires
            spec_hist_sum(*old(self)) < u64::MAX,
        ensures
            *final(self) == spec_hist_add(*old(self), latency_us),
            spec_hist_sum(*final(self)) == spec_hist_sum(*old(self)) + 1,
    {
        if latency_us < HISTOGRAM_BUCKET_1MS {
            self.bucket_0_1ms = self.bucket_0_1ms + 1;
        } else if latency_us < HISTOGRAM_BUCKET_5MS {
            self.bucket_1_5ms = self.bucket_1_5ms + 1;
        } else if latency_us < HISTOGRAM_BUCKET_10MS {
            self.bucket_5_10ms = self.bucket_5_10ms + 1;
        } else if latency_us < HISTOGRAM_BUCKET_50MS {
            self.bucket_10_50ms = self.bucket_10_50ms + 1;
        } else if latency_us < HISTOGRAM_BUCKET_100MS {
            self.bucket_50_100ms = self.bucket_50_100ms + 1;
        } else {
            self.bucket_100ms_plus = self.bucket_100ms_plus + 1;
        }
    }

    /// Total count across all buckets, exactly the number of samples added.
    pub fn total_count(&self) -> (r: u64)
        requires
            spec_hist_sum(*self) <= u64::MAX,
        ensures
            r == spec_hist_sum(*self),
    {
        self.bucket_0_1ms + self.bucket_1_5ms + self.bucket_5_10ms + self.bucket_10_50ms
            + self.bucket_50_100ms + self.bucket_100ms_plus
    }
}

} // verus!
