use sysmon::probe::{query, ProbeError, ProbeOutcome};

fn completed(stdout: &[u8]) -> ProbeOutcome {
    ProbeOutcome::Completed { exit_ok: true, stdout: stdout.to_vec() }
}

#[test]
fn half_used_is_fifty_percent() {
    let outcome = completed(b"500, 1000");
    assert_eq!(query(&outcome), Ok(5000));
}

#[test]
fn zero_total_is_divide_by_zero() {
    let outcome = completed(b"0, 0");
    assert_eq!(query(&outcome), Err(ProbeError::DivideByZero));
}

#[test]
fn missing_utility_is_unavailable() {
    assert_eq!(query(&ProbeOutcome::NotRun), Err(ProbeError::Unavailable));
}

#[test]
fn nonzero_exit_is_unavailable() {
    let outcome = ProbeOutcome::Completed { exit_ok: false, stdout: b"500, 1000".to_vec() };
    assert_eq!(query(&outcome), Err(ProbeError::Unavailable));
}

#[test]
fn non_numeric_output_is_malformed() {
    assert_eq!(query(&completed(b"abc")), Err(ProbeError::MalformedOutput));
    assert_eq!(query(&completed(b"12, x")), Err(ProbeError::MalformedOutput));
    assert_eq!(query(&completed(b"oops, 1000")), Err(ProbeError::MalformedOutput));
}

#[test]
fn wrong_field_count_is_malformed() {
    assert_eq!(query(&completed(b"500")), Err(ProbeError::MalformedOutput));
    assert_eq!(query(&completed(b"1, 2, 3")), Err(ProbeError::MalformedOutput));
    assert_eq!(query(&completed(b"")), Err(ProbeError::MalformedOutput));
    assert_eq!(query(&completed(b", 1000")), Err(ProbeError::MalformedOutput));
    assert_eq!(query(&completed(b"500, ")), Err(ProbeError::MalformedOutput));
}

#[test]
fn surrounding_whitespace_is_accepted() {
    let outcome = completed(b"  500 ,   1000  \n");
    assert_eq!(query(&outcome), Ok(5000));
}

#[test]
fn fractional_fields_parse() {
    // 512.5 / 1024 = 50.048..%, truncated to 50.04% in centi-percent.
    assert_eq!(query(&completed(b"512.5, 1024")), Ok(5004));
    assert_eq!(query(&completed(b"0.25, 1.00")), Ok(2500));
}

#[test]
fn malformed_numbers_are_rejected() {
    assert_eq!(query(&completed(b"1., 1000")), Err(ProbeError::MalformedOutput));
    assert_eq!(query(&completed(b".5, 1000")), Err(ProbeError::MalformedOutput));
    assert_eq!(query(&completed(b"1.234, 1000")), Err(ProbeError::MalformedOutput));
    assert_eq!(query(&completed(b"-5, 1000")), Err(ProbeError::MalformedOutput));
    assert_eq!(query(&completed(b"12345678901, 1000")), Err(ProbeError::MalformedOutput));
}

#[test]
fn multiple_output_lines_are_malformed() {
    // More than one device reporting means more than two fields.
    let outcome = completed(b"500, 1000\n600, 1000\n");
    assert_eq!(query(&outcome), Err(ProbeError::MalformedOutput));
}

#[test]
fn full_usage_is_ten_thousand() {
    assert_eq!(query(&completed(b"1000, 1000")), Ok(10000));
    assert_eq!(query(&completed(b"0, 1000")), Ok(0));
}
