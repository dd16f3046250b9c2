//! GPU probe: turns the raw outcome of running the external diagnostic
//! utility into a memory-utilization percentage, failing soft.
//!
//! The utility is asked for used and total memory as comma-separated,
//! header-free, unit-free numeric text, so its standard output must read
//! `"<used>, <total>"`. Each field is a decimal number of one to ten integer
//! digits, optionally followed by a point and one or two fraction digits;
//! fields may be surrounded by ASCII whitespace. Anything else is malformed.
//!
//! Percentages are reported in hundredths of a percent (centi-percent), the
//! fixed-point unit used throughout the library, truncated toward zero.

use vstd::prelude::*;

verus! {

/// ASCII whitespace accepted around the numeric fields.
pub open spec fn is_space(b: u8) -> bool {
    b == 32 || b == 9 || b == 10 || b == 13
}

/// ASCII decimal digit.
pub open spec fn is_digit(b: u8) -> bool {
    48 <= b <= 57
}

/// Every byte of `s` is an ASCII digit.
pub open spec fn all_digits(s: Seq<u8>) -> bool {
    forall|i: int| 0 <= i < s.len() ==> is_digit(#[trigger] s[i])
}

/// `s` without leading and trailing ASCII whitespace.
pub open spec fn trimmed(s: Seq<u8>) -> Seq<u8>
    decreases s.len(),
{
    if s.len() > 0 && is_space(s[0]) {
        trimmed(s.drop_first())
    } else if s.len() > 0 && is_space(s.last()) {
        trimmed(s.drop_last())
    } else {
        s
    }
}

/// Index of the first occurrence of `b` in `s`, or -1 when absent.
pub open spec fn find_byte(s: Seq<u8>, b: u8) -> int
    decreases s.len(),
{
    if s.len() == 0 {
        -1
    } else if s[0] == b {
        0
    } else if find_byte(s.drop_first(), b) == -1 {
        -1
    } else {
        find_byte(s.drop_first(), b) + 1
    }
}

/// Ten to the `n`th power.
pub open spec fn pow10(n: nat) -> nat
    decreases n,
{
    if n == 0 {
        1
    } else {
        10 * pow10((n - 1) as nat)
    }
}

/// Value of a digit string read as a decimal numeral.
pub open spec fn digits_val(s: Seq<u8>) -> nat
    recommends
        all_digits(s),
    decreases s.len(),
{
    if s.len() == 0 {
        0
    } else {
        digits_val(s.drop_last()) * 10 + ((s.last() - 48) as nat)
    }
}

/// A parsed numeric field as a fixed-point fraction: numerator and
/// denominator, the denominator a power of ten given by the fraction digits.
/// `None` when `s` does not match the field grammar: one to ten integer
/// digits, optionally a point and one or two fraction digits.
pub open spec fn parse_number(s: Seq<u8>) -> Option<(nat, nat)> {
    let dot = find_byte(s, 46);
    if dot == -1 {
        if 1 <= s.len() <= 10 && all_digits(s) {
            Some((digits_val(s), 1 as nat))
        } else {
            None
        }
    } else {
        let int_part = s.take(dot);
        let frac_part = s.skip(dot + 1);
        if 1 <= int_part.len() <= 10 && all_digits(int_part) && 1 <= frac_part.len() <= 2
            && all_digits(frac_part) {
            Some(
                (
                    digits_val(int_part) * pow10(frac_part.len()) + digits_val(frac_part),
                    pow10(frac_part.len()),
                ),
            )
        } else {
            None
        }
    }
}

/// The used and total fields parsed out of the utility's standard output:
/// after trimming, exactly one comma separating two numeric fields, each
/// trimmed and matching the field grammar. `None` otherwise.
pub open spec fn parse_fields(s: Seq<u8>) -> Option<((nat, nat), (nat, nat))> {
    let t = trimmed(s);
    let c = find_byte(t, 44);
    if c == -1 {
        None
    } else {
        let rest = t.skip(c + 1);
        if find_byte(rest, 44) != -1 {
            None
        } else {
            match (parse_number(trimmed(t.take(c))), parse_number(trimmed(rest))) {
                (Some(used), Some(total)) => Some((used, total)),
                _ => None,
            }
        }
    }
}

/// used / total as centi-percent, truncated: both fields are fractions
/// (numerator, denominator), so this is
/// (used.0 / used.1) / (total.0 / total.1) * 100_00.
pub open spec fn percent_centi(used: (nat, nat), total: (nat, nat)) -> nat {
    (used.0 * total.1 * 10000) / (total.0 * used.1)
}

/// How a probe run can fail. Every failure is soft: the sampler maps each
/// of these to the unavailability sentinel instead of aborting the cycle.
#[derive(Clone, Copy, Debug, PartialEq, Eq, Structural)]
pub enum ProbeError {
    /// The utility could not be run, or exited unsuccessfully.
    Unavailable,
    /// The utility's output was not two comma-separated numeric fields.
    MalformedOutput,
    /// The total field was zero, so no percentage exists.
    DivideByZero,
}

/// What running the external utility produced, as plain values: either it
/// could not be run at all, or it ran to completion with an exit status and
/// captured standard output.
pub enum ProbeOutcome {
    /// The utility was missing or could not be spawned.
    NotRun,
    /// The utility ran; `exit_ok` is whether it exited with status zero.
    Completed { exit_ok: bool, stdout: Vec<u8> },
}

/// The percentage or error that a probe outcome yields.
pub open spec fn spec_query(outcome: ProbeOutcome) -> Result<nat, ProbeError> {
    match outcome {
        ProbeOutcome::NotRun => Err(ProbeError::Unavailable),
        ProbeOutcome::Completed { exit_ok, stdout } => {
            if !exit_ok {
                Err(ProbeError::Unavailable)
            } else {
                match parse_fields(stdout@) {
                    None => Err(ProbeError::MalformedOutput),
                    Some((used, total)) => {
                        if total.0 == 0 {
                            Err(ProbeError::DivideByZero)
                        } else {
                            Ok(percent_centi(used, total))
                        }
                    },
                }
            }
        },
    }
}

proof fn lemma_pow10_values()
    ensures
        pow10(0) == 1,
        pow10(1) == 10,
        pow10(2) == 100,
        pow10(9) == 1000000000,
        pow10(10) == 10000000000,
        pow10(12) == 1000000000000,
{
    assert(pow10(0) == 1);
    assert(pow10(1) == 10);
    assert(pow10(2) == 100);
    assert(pow10(3) == 1000);
    assert(pow10(4) == 10000);
    assert(pow10(5) == 100000);
    assert(pow10(6) == 1000000);
    assert(pow10(7) == 10000000);
    assert(pow10(8) == 100000000);
    assert(pow10(9) == 1000000000);
    assert(pow10(10) == 10000000000);
    assert(pow10(11) == 100000000000);
    assert(pow10(12) == 1000000000000);
}

/// A digit string of length n reads as a value below 10^n.
proof fn lemma_digits_val_bound(s: Seq<u8>)
    requires
        all_digits(s),
    ensures
        digits_val(s) < pow10(s.len()),
    decreases s.len(),
{
    if s.len() > 0 {
        lemma_digits_val_bound(s.drop_last());
        assert(is_digit(s[s.len() - 1]));
        assert(pow10(s.len()) == 10 * pow10((s.len() - 1) as nat));
    }
}

/// Dropping leading whitespace does not change the trimmed sequence.
proof fn lemma_trim_front(s: Seq<u8>, k: int)
    requires
        0 <= k <= s.len(),
        forall|i: int| 0 <= i < k ==> is_space(#[trigger] s[i]),
    ensures
        trimmed(s) == trimmed(s.skip(k)),
    decreases k,
{
    if k == 0 {
        assert(s.skip(0) =~= s);
    } else {
        assert(trimmed(s) == trimmed(s.drop_first()));
        assert(s.drop_first().skip(k - 1) =~= s.skip(k));
        lemma_trim_front(s.drop_first(), k - 1);
    }
}

/// Dropping trailing whitespace does not change the trimmed sequence, as
/// long as the front byte is not whitespace.
proof fn lemma_trim_back(s: Seq<u8>, k: int)
    requires
        0 <= k <= s.len(),
        s.len() > 0 ==> !is_space(s[0]),
        forall|i: int| s.len() - k <= i < s.len() ==> is_space(#[trigger] s[i]),
    ensures
        trimmed(s) == trimmed(s.take(s.len() - k)),
    decreases k,
{
    if k == 0 {
        assert(s.take(s.len() as int) =~= s);
    } else {
        assert(is_space(s.last()));
        assert(trimmed(s) == trimmed(s.drop_last()));
        assert(s.drop_last().take(s.len() - k) =~= s.take(s.len() - k));
        lemma_trim_back(s.drop_last(), k - 1);
    }
}

/// `find_byte` returns exactly the index of the first occurrence.
proof fn lemma_find_byte_at(t: Seq<u8>, b: u8, idx: int)
    requires
        0 <= idx < t.len(),
        t[idx] == b,
        forall|j: int| 0 <= j < idx ==> t[j] != b,
    ensures
        find_byte(t, b) == idx,
    decreases idx,
{
    if idx > 0 {
        lemma_find_byte_at(t.drop_first(), b, idx - 1);
    }
}

/// `find_byte` returns -1 exactly when the byte is absent.
proof fn lemma_find_byte_none(t: Seq<u8>, b: u8)
    requires
        forall|j: int| 0 <= j < t.len() ==> t[j] != b,
    ensures
        find_byte(t, b) == -1,
    decreases t.len(),
{
    if t.len() > 0 {
        lemma_find_byte_none(t.drop_first(), b);
    }
}

/// Whether `b` is ASCII whitespace.
fn byte_is_space(b: u8) -> (space: bool)
    ensures
        space == is_space(b),
{
    b == 32 || b == 9 || b == 10 || b == 13
}

/// Trims ASCII whitespace off both ends of `s[start..end]`, returning the
/// bounds of the trimmed region.
fn trim_range(s: &Vec<u8>, start: usize, end: usize) -> (bounds: (usize, usize))
    requires
        start <= end <= s.len(),
    ensures
        start <= bounds.0 <= bounds.1 <= end,
        trimmed(s@.subrange(start as int, end as int)) == s@.subrange(
            bounds.0 as int,
            bounds.1 as int,
        ),
{
    let ghost whole = s@.subrange(start as int, end as int);
    let mut lo: usize = start;
    while lo < end && byte_is_space(s[lo])
        invariant
            start <= lo <= end <= s.len(),
            forall|i: int| start <= i < lo ==> is_space(#[trigger] s@[i]),
        decreases end - lo,
    {
        lo = lo + 1;
    }
    let mut hi: usize = end;
    while hi > lo && byte_is_space(s[hi - 1])
        invariant
            start <= lo <= hi <= end <= s.len(),
            lo < end ==> !is_space(s@[lo as int]),
            forall|i: int| hi <= i < end ==> is_space(#[trigger] s@[i]),
        decreases hi,
    {
        hi = hi - 1;
    }
    proof {
        assert forall|i: int| 0 <= i < lo - start implies is_space(#[trigger] whole[i]) by {
            assert(whole[i] == s@[start + i]);
        }
        lemma_trim_front(whole, lo - start);
        let front = whole.skip(lo - start);
        assert(front =~= s@.subrange(lo as int, end as int));
        assert forall|i: int| front.len() - (end - hi) <= i < front.len() implies is_space(
            #[trigger] front[i],
        ) by {
            assert(front[i] == s@[lo + i]);
        }
        lemma_trim_back(front, end - hi);
        assert(front.take(front.len() - (end - hi)) =~= s@.subrange(lo as int, hi as int));
        let core = s@.subrange(lo as int, hi as int);
        if core.len() > 0 {
            assert(!is_space(core[0]));
            assert(!is_space(core.last()));
        }
        assert(trimmed(core) == core);
    }
    (lo, hi)
}

/// First occurrence of `b` in `s[start..end]`, if any.
fn find_byte_range(s: &Vec<u8>, start: usize, end: usize, b: u8) -> (found: Option<usize>)
    requires
        start <= end <= s.len(),
    ensures
        match found {
            Some(j) => start <= j < end && find_byte(
                s@.subrange(start as int, end as int),
                b,
            ) == j - start,
            None => find_byte(s@.subrange(start as int, end as int), b) == -1,
        },
{
    let ghost whole = s@.subrange(start as int, end as int);
    let mut i: usize = start;
    while i < end
        invariant
            start <= i <= end <= s.len(),
            whole == s@.subrange(start as int, end as int),
            forall|j: int| start <= j < i ==> s@[j] != b,
        decreases end - i,
    {
        if s[i] == b {
            proof {
                assert(whole[i - start] == s@[i as int]);
                assert forall|j: int| 0 <= j < i - start implies whole[j] != b by {
                    assert(whole[j] == s@[start + j]);
                }
                lemma_find_byte_at(whole, b, i - start);
            }
            return Some(i);
        }
        i = i + 1;
    }
    proof {
        assert forall|j: int| 0 <= j < whole.len() implies whole[j] != b by {
            assert(whole[j] == s@[start + j]);
        }
        lemma_find_byte_none(whole, b);
    }
    None
}

/// Whether every byte of `s[start..end]` is an ASCII digit.
fn all_digits_range(s: &Vec<u8>, start: usize, end: usize) -> (digits: bool)
    requires
        start <= end <= s.len(),
    ensures
        digits == all_digits(s@.subrange(start as int, end as int)),
{
    let ghost whole = s@.subrange(start as int, end as int);
    let mut i: usize = start;
    while i < end
        invariant
            start <= i <= end <= s.len(),
            whole == s@.subrange(start as int, end as int),
            forall|j: int| start <= j < i ==> is_digit(#[trigger] s@[j]),
        decreases end - i,
    {
        let byte = s[i];
        if byte < 48 || byte > 57 {
            proof {
                assert(whole[i - start] == s@[i as int]);
            }
            return false;
        }
        i = i + 1;
    }
    proof {
        assert forall|j: int| 0 <= j < whole.len() implies is_digit(#[trigger] whole[j]) by {
            assert(whole[j] == s@[start + j]);
        }
    }
    true
}

/// Decimal value of the digit string `s[start..end]` (at most ten digits).
fn digits_value_range(s: &Vec<u8>, start: usize, end: usize) -> (value: u64)
    requires
        start <= end <= s.len(),
        end - start <= 10,
        all_digits(s@.subrange(start as int, end as int)),
    ensures
        value == digits_val(s@.subrange(start as int, end as int)),
        value < pow10((end - start) as nat),
{
    let ghost whole = s@.subrange(start as int, end as int);
    proof {
        lemma_pow10_values();
    }
    let mut value: u64 = 0;
    let mut i: usize = start;
    while i < end
        invariant
            start <= i <= end <= s.len(),
            end - start <= 10,
            all_digits(whole),
            whole == s@.subrange(start as int, end as int),
            value == digits_val(s@.subrange(start as int, i as int)),
            value < pow10((i - start) as nat),
            pow10(10) == 10000000000,
        decreases end - i,
    {
        proof {
            assert(whole[i - start] == s@[i as int]);
            lemma_digits_val_bound(s@.subrange(start as int, i as int));
            lemma_pow10_values();
            assert(pow10((i - start) as nat) <= pow10(9)) by {
                lemma_pow10_increases(((i - start) as nat), 9);
            }
        }
        let digit: u8 = s[i] - 48;
        let ghost prefix = s@.subrange(start as int, i as int);
        value = value * 10 + (digit as u64);
        proof {
            let extended = s@.subrange(start as int, (i + 1) as int);
            assert(extended.drop_last() =~= prefix);
            assert(extended.last() == s@[i as int]);
            assert(pow10(((i + 1) - start) as nat) == 10 * pow10((i - start) as nat));
        }
        i = i + 1;
    }
    value
}

/// pow10 is monotone in the exponent.
proof fn lemma_pow10_increases(m: nat, n: nat)
    requires
        m <= n,
    ensures
        pow10(m) <= pow10(n),
    decreases n,
{
    if m < n {
        lemma_pow10_increases(m, (n - 1) as nat);
        assert(pow10(n) == 10 * pow10((n - 1) as nat));
        assert(pow10((n - 1) as nat) >= 1) by {
            lemma_pow10_at_least_one((n - 1) as nat);
        }
    }
}

/// pow10 is at least one.
proof fn lemma_pow10_at_least_one(n: nat)
    ensures
        pow10(n) >= 1,
    decreases n,
{
    if n > 0 {
        lemma_pow10_at_least_one((n - 1) as nat);
    }
}

/// Parses the numeric field in `s[start..end]` into a fixed-point fraction
/// (numerator, power-of-ten denominator).
fn parse_number_range(s: &Vec<u8>, start: usize, end: usize) -> (parsed: Option<(u64, u64)>)
    requires
        start <= end <= s.len(),
    ensures
        match parsed {
            Some(v) => {
                &&& parse_number(s@.subrange(start as int, end as int)) == Some(
                    (v.0 as nat, v.1 as nat),
                )
                &&& v.0 < 1000000000000
                &&& 1 <= v.1 <= 100
            },
            None => parse_number(s@.subrange(start as int, end as int)) is None,
        },
{
    let ghost whole = s@.subrange(start as int, end as int);
    proof {
        lemma_pow10_values();
    }
    match find_byte_range(s, start, end, 46) {
        None => {
            if end - start < 1 || end - start > 10 {
                return None;
            }
            if !all_digits_range(s, start, end) {
                return None;
            }
            let value: u64 = digits_value_range(s, start, end);
            proof {
                lemma_pow10_increases(((end - start) as nat), 10);
            }
            Some((value, 1))
        },
        Some(dot) => {
            let ghost int_part = whole.take(dot - start);
            let ghost frac_part = whole.skip(dot - start + 1);
            proof {
                assert(int_part =~= s@.subrange(start as int, dot as int));
                assert(frac_part =~= s@.subrange(dot + 1 as int, end as int));
            }
            if dot - start < 1 || dot - start > 10 {
                return None;
            }
            let frac_len: usize = end - (dot + 1);
            if frac_len < 1 || frac_len > 2 {
                return None;
            }
            if !all_digits_range(s, start, dot) {
                return None;
            }
            if !all_digits_range(s, dot + 1, end) {
                return None;
            }
            let int_value: u64 = digits_value_range(s, start, dot);
            let frac_value: u64 = digits_value_range(s, dot + 1, end);
            let scale: u64 = if frac_len == 1 {
                10
            } else {
                100
            };
            proof {
                lemma_pow10_increases(((dot - start) as nat), 10);
                assert(scale == pow10(frac_part.len()));
            }
            let value: u64 = int_value * scale + frac_value;
            Some((value, scale))
        },
    }
}

/// Highest percentage value (in centi-percent) that `query` can return,
/// exclusive: the numerator of the percentage computation never reaches
/// 10^18, and the denominator is at least one.
pub const PERCENT_CENTI_LIMIT: u64 = 1000000000000000000;

/// Computes the GPU memory-utilization percentage from the raw outcome of
/// running the diagnostic utility.
///
/// Succeeds exactly when the utility ran, exited with status zero, printed
/// two comma-separated numeric fields, and the total field is nonzero; the
/// result is then used/total as truncated centi-percent. Each failure is
/// reported as the matching `ProbeError` instead of a panic.
pub fn query(outcome: &ProbeOutcome) -> (result: Result<u64, ProbeError>)
    ensures
        match (result, spec_query(*outcome)) {
            (Ok(p), Ok(q)) => p == q && p < PERCENT_CENTI_LIMIT,
            (Err(e), Err(f)) => e == f,
            _ => false,
        },
{
    match outcome {
        ProbeOutcome::NotRun => Err(ProbeError::Unavailable),
        ProbeOutcome::Completed { exit_ok, stdout } => {
            if !*exit_ok {
                return Err(ProbeError::Unavailable);
            }
            proof {
                assert(stdout@.subrange(0, stdout@.len() as int) =~= stdout@);
            }
            let (lo, hi) = trim_range(stdout, 0, stdout.len());
            let ghost t = trimmed(stdout@);
            proof {
                assert(t == stdout@.subrange(lo as int, hi as int));
            }
            let comma: usize = match find_byte_range(stdout, lo, hi, 44) {
                None => {
                    return Err(ProbeError::MalformedOutput);
                },
                Some(j) => j,
            };
            let ghost rest = t.skip(comma - lo + 1);
            proof {
                assert(rest =~= stdout@.subrange(comma + 1 as int, hi as int));
            }
            if let Some(_) = find_byte_range(stdout, comma + 1, hi, 44) {
                return Err(ProbeError::MalformedOutput);
            }
            proof {
                assert(t.take(comma - lo) =~= stdout@.subrange(lo as int, comma as int));
            }
            let (a1, b1) = trim_range(stdout, lo, comma);
            let (a2, b2) = trim_range(stdout, comma + 1, hi);
            let used = match parse_number_range(stdout, a1, b1) {
                None => {
                    return Err(ProbeError::MalformedOutput);
                },
                Some(v) => v,
            };
            let total = match parse_number_range(stdout, a2, b2) {
                None => {
                    return Err(ProbeError::MalformedOutput);
                },
                Some(v) => v,
            };
            if total.0 == 0 {
                return Err(ProbeError::DivideByZero);
            }
            let (used_num, used_den) = used;
            let (total_num, total_den) = total;
            proof {
                assert(used_num * total_den < 100000000000000) by (nonlinear_arith)
                    requires
                        used_num < 1000000000000,
                        total_den <= 100,
                ;
                assert(total_num * used_den < 100000000000000) by (nonlinear_arith)
                    requires
                        total_num < 1000000000000,
                        used_den <= 100,
                ;
                assert(total_num * used_den >= 1) by (nonlinear_arith)
                    requires
                        total_num >= 1,
                        used_den >= 1,
                ;
            }
            let numerator: u64 = used_num * total_den * 10000;
            let denominator: u64 = total_num * used_den;
            let percent: u64 = numerator / denominator;
            Ok(percent)
        },
    }
}

} // verus!
