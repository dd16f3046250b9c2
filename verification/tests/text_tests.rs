use sysmon::text::{centi_to_string, format_cpu_line, format_memory_line, memory_line_from_bytes};

#[test]
fn two_gib_memory_line() {
    assert_eq!(memory_line_from_bytes(2147483648), "Memory Usage: 2048.00 MB");
}

#[test]
fn memory_line_from_centi_value() {
    assert_eq!(format_memory_line(204800), "Memory Usage: 2048.00 MB");
    assert_eq!(format_memory_line(0), "Memory Usage: 0.00 MB");
    assert_eq!(format_memory_line(12345), "Memory Usage: 123.45 MB");
}

#[test]
fn cpu_line() {
    assert_eq!(format_cpu_line(1234), "CPU Usage: 12.34 %");
    assert_eq!(format_cpu_line(10000), "CPU Usage: 100.00 %");
    assert_eq!(format_cpu_line(5), "CPU Usage: 0.05 %");
}

#[test]
fn centi_rendering_has_two_fraction_digits() {
    assert_eq!(centi_to_string(0), "0.00");
    assert_eq!(centi_to_string(5), "0.05");
    assert_eq!(centi_to_string(50), "0.50");
    assert_eq!(centi_to_string(100), "1.00");
    assert_eq!(centi_to_string(204800), "2048.00");
}

#[test]
fn text_mode_cycle_prints_converted_memory() {
    // One full text-mode cycle: a 2 GiB reading is sampled, stored, and
    // printed as exactly 2048.00 MB.
    let mut series = sysmon::sampler::SeriesSet::new(10);
    let snapshot = sysmon::sampler::MetricSnapshot {
        memory_used_bytes: 2147483648,
        cpu_core_centi: vec![1000, 3000],
        gpu: Err(sysmon::probe::ProbeError::Unavailable),
    };
    series.record(&snapshot);
    let memory = *series.memory.snapshot().last().unwrap();
    let cpu = *series.cpu.snapshot().last().unwrap();
    assert_eq!(format_memory_line(memory), "Memory Usage: 2048.00 MB");
    assert_eq!(format_cpu_line(cpu), "CPU Usage: 20.00 %");
}

#[test]
fn sentinel_renders_as_minus_one() {
    assert_eq!(centi_to_string(-100), "-1.00");
    assert_eq!(centi_to_string(-5), "-0.05");
}
