//! Per-event userspace processing: sampling and decoding.
//!
//! One reader runs per CPU channel; each owns an independent sample
//! counter, so the realized global sampling ratio is an approximation of
//! one in N, never exact.  Each record read from a channel passes through
//! `process_event_record`: the counter advances, every Nth record is
//! decoded and, when it carries a valid latency, applied to the shared
//! collector; everything else is discarded before the collector sees it.

use vstd::prelude::*;
use crate::types::{LatencyEvent, spec_valid_latency};
use crate::codec::{decode_latency_event, spec_decode_latency_event};
use crate::collector::{MetricsCollector, spec_event_applied, collector_unchanged};

verus! {

/// What became of one record read from a channel.
#[derive(Clone, Copy, Debug, PartialEq, Eq, Structural)]
pub enum ProcessOutcome {
    /// The record was sampled, decoded and applied to the collector.
    Applied(LatencyEvent),
    /// The sampler discarded the record before decoding.
    SampledOut,
    /// The buffer was not a well-formed event record.
    DecodeFailed,
    /// The decoded latency lay outside the valid window, so the event
    /// never reached the aggregator.
    InvalidLatency,
}

/// The sample counter after one observation, wrapping at the top.
pub open spec fn spec_next_counter(counter: u32) -> u32 {
    vstd::wrapping::u32_specs::wrapping_add(counter, 1)
}

/// Advance a reader's sample counter by one observed event; the event is
/// kept exactly when the new count is a multiple of the sampling rate.
pub fn next_sample(counter: u32, sample_rate: u32) -> (r: (u32, bool))
    requires
        sample_rate >= 1,
    ensures
        r.0 == spec_next_counter(counter),
        r.1 == (spec_next_counter(counter) % sample_rate == 0),
{
    let c = counter.wrapping_add(1);
    (c, c % sample_rate == 0)
}

/// Process one raw record from a per-CPU channel.
///
/// Returns the advanced sample counter and what became of the record.  The
/// collector changes exactly when the record is kept by the sampler,
/// decodes, and carries a valid latency; a measurement outside the valid
/// window never reaches the aggregator.
pub fn process_event_record(
    collector: &mut MetricsCollector,
    buf: &[u8],
    counter: u32,
    sample_rate: u32,
) -> (r: (u32, ProcessOutcome))
    requires
        old(collector).well_formed(),
        sample_rate >= 1,
        old(collector).spec_total_events() < u64::MAX,
    ensures
        final(collector).well_formed(),
        r.0 == spec_next_counter(counter),
        ({
            let kept = spec_next_counter(counter) % sample_rate == 0;
            if !kept {
                &&& r.1 == ProcessOutcome::SampledOut
                &&& collector_unchanged(*final(collector), *old(collector))
            } else {
                match spec_decode_latency_event(buf@) {
                    Option::None => {
                        &&& r.1 == ProcessOutcome::DecodeFailed
                        &&& collector_unchanged(*final(collector), *old(collector))
                    },
                    Option::Some(e) => {
                        if spec_valid_latency(e.latency_ns) {
                            &&& r.1 == ProcessOutcome::Applied(e)
                            &&& spec_event_applied(*old(collector), *final(collector), e)
                        } else {
                            &&& r.1 == ProcessOutcome::InvalidLatency
                            &&& collector_unchanged(*final(collector), *old(collector))
                        }
                    },
                }
            }
        }),
{
    let (next, keep) = next_sample(counter, sample_rate);
    if !keep {
        return (next, ProcessOutcome::SampledOut);
    }
    let event = match decode_latency_event(buf) {
        Some(e) => e,
        None => {
            return (next, ProcessOutcome::DecodeFailed);
        },
    };
    if !(event.latency_ns >= crate::types::MIN_LATENCY_NS && event.latency_ns
        <= crate::types::MAX_LATENCY_NS) {
        return (next, ProcessOutcome::InvalidLatency);
    }
    collector.add_event(&event);
    (next, ProcessOutcome::Applied(event))
}

} // verus!
