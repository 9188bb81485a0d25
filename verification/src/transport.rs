//! The sample transport: a bounded single-producer single-consumer ring
//! queue carrying captured samples from the capture callback to a downstream
//! consumer (one ring per downstream purpose). Neither end ever blocks: a
//! full ring drops the pushed sample and counts an overflow, an empty ring
//! yields no data and counts an underrun.
//!
//! The ring itself is `ringbuf`'s heap-allocated SPSC queue; this module
//! wraps its non-blocking operations and keeps the verified counters. The
//! two halves are shared between threads, so nothing is assumed about what a
//! pop returns: the recorder takes whatever arrives as an argument.

use ringbuf::traits::{Consumer, Producer, Split};
use vstd::prelude::*;

verus! {

/// The producing half of one `ringbuf` SPSC heap ring.
#[verifier::external_body]
pub struct RingProducerHandle {
    inner: ringbuf::HeapProd<i64>,
}

/// The consuming half of one `ringbuf` SPSC heap ring.
#[verifier::external_body]
pub struct RingConsumerHandle {
    inner: ringbuf::HeapCons<i64>,
}

/// Relies on ringbuf's HeapRb::new and Split::split: a fresh empty ring of
/// the given capacity, split into its two halves. HeapRb::new panics on a
/// zero capacity, so that input is excluded.
#[verifier::external_body]
fn ring_new(capacity: usize) -> (halves: (RingProducerHandle, RingConsumerHandle))
    requires
        capacity >= 1,
{
    let ring = ringbuf::HeapRb::new(capacity);
    let (producer, consumer) = ring.split();
    (RingProducerHandle { inner: producer }, RingConsumerHandle { inner: consumer })
}

/// Relies on ringbuf's Producer::try_push: non-blocking and allocation-free;
/// appends the sample and returns Ok when the ring has a free slot, else
/// hands the sample back as Err. The other half is owned by a concurrent
/// consumer, so nothing more is assumed of the outcome.
#[verifier::external_body]
fn ring_try_push(handle: &mut RingProducerHandle, sample: i64) -> (accepted: bool) {
    handle.inner.try_push(sample).is_ok()
}

/// Relies on ringbuf's Consumer::try_pop: non-blocking and allocation-free;
/// removes and returns the oldest sample, or None when the ring is empty.
/// The other half is owned by a concurrent producer, so nothing more is
/// assumed of the outcome.
#[verifier::external_body]
fn ring_try_pop(handle: &mut RingConsumerHandle) -> (sample: Option<i64>) {
    handle.inner.try_pop()
}

/// The capture side of the transport: pushes never block, and every sample
/// dropped on a full ring is counted.
pub struct TransportProducer {
    pub handle: RingProducerHandle,
    pub overflow_count: u64,
}

/// The playback/recording side of the transport: pops never block, and every
/// read from an empty ring is counted.
pub struct TransportConsumer {
    pub handle: RingConsumerHandle,
    pub underrun_count: u64,
}

/// A fresh transport of the given capacity (in samples), its counters at
/// zero.
pub fn transport_pair(capacity: usize) -> (pair: (TransportProducer, TransportConsumer))
    requires
        capacity >= 1,
    ensures
        pair.0.overflow_count == 0,
        pair.1.underrun_count == 0,
{
    let (producer, consumer) = ring_new(capacity);
    (
        TransportProducer { handle: producer, overflow_count: 0 },
        TransportConsumer { handle: consumer, underrun_count: 0 },
    )
}

/// The suggested transport capacity: twice the configured latency's worth of
/// frames, interleaved over the stream's channels.
pub open spec fn transport_capacity_spec(sample_rate: u32, latency_ms: u32, channels: u32) -> int {
    latency_ms * sample_rate / 1000 * channels * 2
}

pub fn transport_capacity(sample_rate: u32, latency_ms: u32, channels: u32) -> (capacity: usize)
    requires
        latency_ms * sample_rate <= u32::MAX,
        latency_ms * sample_rate / 1000 * channels <= u32::MAX,
        latency_ms * sample_rate / 1000 * channels * 2 <= usize::MAX,
    ensures
        capacity == transport_capacity_spec(sample_rate, latency_ms, channels),
{
    let latency_samples = latency_ms * sample_rate / 1000 * channels;
    latency_samples as usize * 2
}

impl TransportProducer {
    /// Push one captured sample. Never blocks and never stalls the producer:
    /// when the ring is full the sample is dropped and the overflow counter
    /// moves up one (saturating), which is the whole effect.
    pub fn push(&mut self, sample: i64) -> (accepted: bool)
        ensures
            accepted ==> final(self).overflow_count == old(self).overflow_count,
            !accepted ==> final(self).overflow_count == if old(self).overflow_count < u64::MAX {
                old(self).overflow_count + 1int
            } else {
                old(self).overflow_count as int
            },
    {
        let accepted = ring_try_push(&mut self.handle, sample);
        if !accepted {
            if self.overflow_count < u64::MAX {
                self.overflow_count = self.overflow_count + 1;
            }
        }
        accepted
    }
}

impl TransportConsumer {
    /// Pop the oldest sample if one is there. Never blocks: an empty ring
    /// yields `None` — callers treat that as silence, never as an error —
    /// and moves the underrun counter up one (saturating).
    pub fn pop(&mut self) -> (sample: Option<i64>)
        ensures
            sample is Some ==> final(self).underrun_count == old(self).underrun_count,
            sample is None ==> final(self).underrun_count == if old(self).underrun_count
                < u64::MAX {
                old(self).underrun_count + 1int
            } else {
                old(self).underrun_count as int
            },
    {
        let sample = ring_try_pop(&mut self.handle);
        if sample.is_none() {
            if self.underrun_count < u64::MAX {
                self.underrun_count = self.underrun_count + 1;
            }
        }
        sample
    }
}

} // verus!
