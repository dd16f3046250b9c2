use sysmon::probe::ProbeError;
use sysmon::sampler::{
    bytes_to_mb_centi, mean_centi, MetricSnapshot, ProviderReadiness, SeriesSet,
    GPU_UNAVAILABLE_CENTI,
};

#[test]
fn two_gib_is_exactly_2048_mb() {
    // 2147483648 bytes = 2048 MB = 204800 centi-megabytes, exactly.
    assert_eq!(bytes_to_mb_centi(2147483648), 204800);
}

#[test]
fn byte_conversion_is_exact_fixed_point() {
    assert_eq!(bytes_to_mb_centi(0), 0);
    assert_eq!(bytes_to_mb_centi(1048576), 100); // 1 MB
    assert_eq!(bytes_to_mb_centi(1572864), 150); // 1.5 MB
    assert_eq!(bytes_to_mb_centi(524288), 50); // 0.5 MB
    // Truncation: one byte is far below a hundredth of a megabyte.
    assert_eq!(bytes_to_mb_centi(1), 0);
}

#[test]
fn mean_of_core_readings() {
    assert_eq!(mean_centi(&vec![1000, 2000, 3000]), 2000);
    assert_eq!(mean_centi(&vec![10000]), 10000);
    // Truncated mean.
    assert_eq!(mean_centi(&vec![1, 2]), 1);
}

#[test]
fn record_pushes_one_sample_per_series() {
    let mut series = SeriesSet::new(10);
    let snapshot = MetricSnapshot {
        memory_used_bytes: 2147483648,
        cpu_core_centi: vec![2000, 4000],
        gpu: Ok(5000),
    };
    series.record(&snapshot);
    assert_eq!(series.cpu.snapshot(), vec![3000]);
    assert_eq!(series.gpu.snapshot(), vec![5000]);
    assert_eq!(series.memory.snapshot(), vec![204800]);
}

#[test]
fn failed_probe_becomes_sentinel() {
    let mut series = SeriesSet::new(4);
    let snapshot = MetricSnapshot {
        memory_used_bytes: 0,
        cpu_core_centi: vec![0],
        gpu: Err(ProbeError::DivideByZero),
    };
    series.record(&snapshot);
    assert_eq!(series.gpu.snapshot(), vec![GPU_UNAVAILABLE_CENTI]);
    assert_eq!(series.gpu.snapshot(), vec![-100]);
}

#[test]
fn every_probe_error_maps_to_sentinel() {
    for error in [ProbeError::Unavailable, ProbeError::MalformedOutput, ProbeError::DivideByZero] {
        let mut series = SeriesSet::new(2);
        let snapshot =
            MetricSnapshot { memory_used_bytes: 0, cpu_core_centi: vec![0], gpu: Err(error) };
        series.record(&snapshot);
        assert_eq!(series.gpu.snapshot(), vec![GPU_UNAVAILABLE_CENTI]);
    }
}

#[test]
fn no_cores_means_zero_aggregate() {
    let mut series = SeriesSet::new(2);
    let snapshot =
        MetricSnapshot { memory_used_bytes: 0, cpu_core_centi: Vec::new(), gpu: Ok(0) };
    series.record(&snapshot);
    assert_eq!(series.cpu.snapshot(), vec![0]);
}

#[test]
fn series_evict_oldest_when_full() {
    let mut series = SeriesSet::new(2);
    for bytes in [1048576u64, 2097152, 3145728] {
        let snapshot = MetricSnapshot {
            memory_used_bytes: bytes,
            cpu_core_centi: vec![1000],
            gpu: Ok(1),
        };
        series.record(&snapshot);
    }
    assert_eq!(series.memory.snapshot(), vec![200, 300]);
}

#[test]
fn cpu_reliable_after_two_refreshes() {
    let mut readiness = ProviderReadiness::new();
    assert!(!readiness.is_cpu_reliable());
    readiness.record_refresh();
    assert!(!readiness.is_cpu_reliable());
    readiness.record_refresh();
    assert!(readiness.is_cpu_reliable());
    readiness.record_refresh();
    assert!(readiness.is_cpu_reliable());
}
