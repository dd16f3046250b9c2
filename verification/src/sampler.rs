//! One sampling cycle: reduce a raw metric snapshot to one sample per
//! tracked series and append each to its bounded history.
//!
//! All samples are fixed-point values in hundredths of their unit
//! (centi-percent for CPU and GPU utilization, centi-megabytes for memory),
//! since readings arrive as plain integers and stay exact that way. A failed
//! GPU probe is absorbed here: it becomes the sentinel sample
//! `GPU_UNAVAILABLE_CENTI` rather than an error.

use crate::history::{push_model, HistoryBuffer};
use crate::probe::{ProbeError, PERCENT_CENTI_LIMIT};
use vstd::prelude::*;

verus! {

/// Sentinel stored in the GPU series when the probe fails: -1 percent,
/// expressed in centi-percent.
pub const GPU_UNAVAILABLE_CENTI: i64 = -100;

/// Memory reading converted from bytes to centi-megabytes, truncated:
/// bytes * 100 / 1024^2.
pub open spec fn spec_bytes_to_mb_centi(bytes: u64) -> nat {
    ((bytes * 100) / 1048576) as nat
}

/// Converts a used-memory reading from bytes to centi-megabytes.
/// The conversion is exact up to the fixed-point resolution: the result is
/// bytes * 100 / 1024^2, truncated.
pub fn bytes_to_mb_centi(bytes: u64) -> (mb_centi: u64)
    ensures
        mb_centi == spec_bytes_to_mb_centi(bytes),
        mb_centi < 0x8000000000000000,
{
    proof {
        assert((bytes * 100) / 1048576 < 0x8000000000000000) by (nonlinear_arith)
            requires
                bytes <= 0xFFFFFFFFFFFFFFFFu64,
        ;
    }
    ((bytes as u128) * 100 / 1048576) as u64
}

/// Sum of a sequence of readings.
pub open spec fn sum(s: Seq<u64>) -> nat
    decreases s.len(),
{
    if s.len() == 0 {
        0
    } else {
        sum(s.drop_last()) + (s.last() as nat)
    }
}

/// A sequence of centi-percent readings each at most 100.00%.
pub open spec fn all_percentages(s: Seq<u64>) -> bool {
    forall|i: int| 0 <= i < s.len() ==> #[trigger] s[i] <= 10000
}

/// The sum of percentage readings is at most 100.00% times their count.
proof fn lemma_sum_bounded(s: Seq<u64>)
    requires
        all_percentages(s),
    ensures
        sum(s) <= 10000 * s.len(),
    decreases s.len(),
{
    if s.len() > 0 {
        assert(s.last() <= 10000);
        lemma_sum_bounded(s.drop_last());
    }
}

/// Arithmetic mean of per-core readings, truncated.
pub fn mean_centi(values: &Vec<u64>) -> (mean: u64)
    requires
        values@.len() >= 1,
        all_percentages(values@),
    ensures
        mean == sum(values@) / values@.len(),
        mean <= 10000,
{
    let mut acc: u128 = 0;
    let mut i: usize = 0;
    while i < values.len()
        invariant
            i <= values@.len(),
            all_percentages(values@),
            acc == sum(values@.take(i as int)),
            acc <= 10000 * i,
        decreases values@.len() - i,
    {
        proof {
            let extended = values@.take(i + 1 as int);
            assert(extended.drop_last() =~= values@.take(i as int));
            assert(extended.last() == values@[i as int]);
        }
        acc = acc + (values[i] as u128);
        i = i + 1;
    }
    proof {
        assert(values@.take(values@.len() as int) =~= values@);
        lemma_sum_bounded(values@);
        assert(sum(values@) / values@.len() <= 10000) by (nonlinear_arith)
            requires
                sum(values@) <= 10000 * values@.len(),
                values@.len() >= 1,
        ;
    }
    (acc / (values.len() as u128)) as u64
}

/// One cycle's raw readings, as plain values: used memory in bytes,
/// per-core CPU utilization in centi-percent, and the GPU probe's result.
pub struct MetricSnapshot {
    /// Used memory in bytes, as the provider reports it.
    pub memory_used_bytes: u64,
    /// Per-core CPU utilization in centi-percent, each at most 100.00%.
    pub cpu_core_centi: Vec<u64>,
    /// The GPU probe's percentage, or the soft failure it reported.
    pub gpu: Result<u64, ProbeError>,
}

impl MetricSnapshot {
    /// Well-formedness: CPU readings are percentages and a successful GPU
    /// reading is within the probe's output range.
    pub open spec fn wf(&self) -> bool {
        &&& all_percentages(self.cpu_core_centi@)
        &&& (self.gpu matches Ok(p) ==> p < PERCENT_CENTI_LIMIT)
    }
}

/// The CPU aggregate sample a snapshot yields: the truncated mean of the
/// per-core readings, or zero when no cores were reported.
pub open spec fn cpu_sample_of(cpu: Seq<u64>) -> i64 {
    if cpu.len() == 0 {
        0
    } else {
        (sum(cpu) / cpu.len()) as i64
    }
}

/// The GPU sample a snapshot yields: the probed percentage, or the
/// unavailability sentinel for every probe failure.
pub open spec fn gpu_sample_of(gpu: Result<u64, ProbeError>) -> i64 {
    match gpu {
        Ok(p) => p as i64,
        Err(_) => GPU_UNAVAILABLE_CENTI,
    }
}

/// The memory sample a snapshot yields: centi-megabytes.
pub open spec fn memory_sample_of(bytes: u64) -> i64 {
    spec_bytes_to_mb_centi(bytes) as i64
}

/// The group of bounded histories tracked across the run: one series each
/// for the CPU aggregate, the GPU percentage, and used memory.
pub struct SeriesSet {
    /// CPU aggregate utilization, centi-percent.
    pub cpu: HistoryBuffer<i64>,
    /// GPU memory utilization, centi-percent; `GPU_UNAVAILABLE_CENTI` when
    /// the probe failed that cycle.
    pub gpu: HistoryBuffer<i64>,
    /// Used memory, centi-megabytes.
    pub memory: HistoryBuffer<i64>,
}

impl SeriesSet {
    /// All three histories are well formed.
    pub open spec fn wf(&self) -> bool {
        &&& self.cpu.wf()
        &&& self.gpu.wf()
        &&& self.memory.wf()
    }

    /// Three empty histories of the same fixed capacity.
    pub fn new(capacity: usize) -> (series: SeriesSet)
        requires
            capacity >= 1,
        ensures
            series.wf(),
            series.cpu@ == Seq::<i64>::empty(),
            series.gpu@ == Seq::<i64>::empty(),
            series.memory@ == Seq::<i64>::empty(),
            series.cpu.spec_capacity() == capacity,
            series.gpu.spec_capacity() == capacity,
            series.memory.spec_capacity() == capacity,
    {
        SeriesSet {
            cpu: HistoryBuffer::new(capacity),
            gpu: HistoryBuffer::new(capacity),
            memory: HistoryBuffer::new(capacity),
        }
    }

    /// Folds one snapshot into the series: reduces the per-core readings to
    /// their mean, converts memory to centi-megabytes, maps a failed GPU
    /// probe to the sentinel, and pushes one sample per series.
    pub fn record(&mut self, snapshot: &MetricSnapshot)
        requires
            old(self).wf(),
            snapshot.wf(),
        ensures
            final(self).wf(),
            final(self).cpu.spec_capacity() == old(self).cpu.spec_capacity(),
            final(self).gpu.spec_capacity() == old(self).gpu.spec_capacity(),
            final(self).memory.spec_capacity() == old(self).memory.spec_capacity(),
            final(self).cpu@ == push_model(
                old(self).cpu@,
                old(self).cpu.spec_capacity(),
                cpu_sample_of(snapshot.cpu_core_centi@),
            ),
            final(self).gpu@ == push_model(
                old(self).gpu@,
                old(self).gpu.spec_capacity(),
                gpu_sample_of(snapshot.gpu),
            ),
            final(self).memory@ == push_model(
                old(self).memory@,
                old(self).memory.spec_capacity(),
                memory_sample_of(snapshot.memory_used_bytes),
            ),
    {
        let cpu_sample: i64 = if snapshot.cpu_core_centi.len() == 0 {
            0
        } else {
            mean_centi(&snapshot.cpu_core_centi) as i64
        };
        let gpu_sample: i64 = match &snapshot.gpu {
            Ok(p) => *p as i64,
            Err(_) => GPU_UNAVAILABLE_CENTI,
        };
        let memory_sample: i64 = bytes_to_mb_centi(snapshot.memory_used_bytes) as i64;
        self.cpu.push(cpu_sample);
        self.gpu.push(gpu_sample);
        self.memory.push(memory_sample);
    }
}

/// Readiness of the metric provider. CPU percentages derive from the
/// difference between two internal counter reads, so they are meaningful
/// only once two refreshes separated by the settling interval have
/// happened; this object makes that precondition explicit state instead of
/// implicit timing.
pub struct ProviderReadiness {
    refreshes: u64,
}

impl ProviderReadiness {
    /// How many settled refreshes have been recorded.
    pub closed spec fn spec_refreshes(&self) -> nat {
        self.refreshes as nat
    }

    /// CPU readings are reliable once two counter reads exist to difference.
    pub open spec fn cpu_reliable(&self) -> bool {
        self.spec_refreshes() >= 2
    }

    /// A provider that has not refreshed yet.
    pub fn new() -> (readiness: ProviderReadiness)
        ensures
            readiness.spec_refreshes() == 0,
            !readiness.cpu_reliable(),
    {
        ProviderReadiness { refreshes: 0 }
    }

    /// Records one refresh separated from the previous one by at least the
    /// settling interval; the count saturates rather than wraps.
    pub fn record_refresh(&mut self)
        ensures
            final(self).spec_refreshes() == if old(self).spec_refreshes() < u64::MAX {
                old(self).spec_refreshes() + 1
            } else {
                old(self).spec_refreshes()
            },
            old(self).cpu_reliable() ==> final(self).cpu_reliable(),
    {
        if self.refreshes < u64::MAX {
            self.refreshes = self.refreshes + 1;
        }
    }

    /// Whether the CPU readings of the coming snapshot can be trusted.
    pub fn is_cpu_reliable(&self) -> (reliable: bool)
        ensures
            reliable == self.cpu_reliable(),
    {
        self.refreshes >= 2
    }
}

} // verus!
