//! Text-mode output: renders the fixed-point samples as the lines the
//! monitor prints each cycle. A centi value (hundredths of a unit) is shown
//! with exactly two fraction digits, so the rendering is exact.

use vstd::prelude::*;

verus! {

/// The decimal digit character for `n` (`n < 10`).
pub open spec fn digit_char(n: nat) -> char {
    ((48 + n) as u8) as char
}

/// Decimal numeral of `n`, most significant digit first, no leading zeros
/// (a single zero for zero itself).
pub open spec fn dec_chars(n: nat) -> Seq<char>
    decreases n,
{
    if n < 10 {
        seq![digit_char(n)]
    } else {
        dec_chars(n / 10).push(digit_char(n % 10))
    }
}

/// Rendering of a value in hundredths of a unit: optional minus sign, the
/// whole part, a point, and exactly two fraction digits.
pub open spec fn centi_chars(v: int) -> Seq<char> {
    let m = (if v < 0 {
        -v
    } else {
        v
    }) as nat;
    (if v < 0 {
        seq!['-']
    } else {
        Seq::<char>::empty()
    }) + dec_chars(m / 100) + seq!['.', digit_char((m % 100) / 10), digit_char(m % 10)]
}

/// The text-mode memory line for a used-memory sample in centi-megabytes.
pub open spec fn memory_line_chars(mb_centi: int) -> Seq<char> {
    "Memory Usage: "@ + centi_chars(mb_centi) + " MB"@
}

/// The text-mode CPU line for an aggregate sample in centi-percent.
pub open spec fn cpu_line_chars(cpu_centi: int) -> Seq<char> {
    "CPU Usage: "@ + centi_chars(cpu_centi) + " %"@
}

/// Relies on String's FromIterator impl: collecting chars yields the string
/// of exactly those chars in order.
#[verifier::external_body]
fn chars_to_string(chars: Vec<char>) -> (s: String)
    ensures
        s@ == chars@,
{
    String::from_iter(chars)
}

/// The character for digit `d`.
fn digit_to_char(d: u64) -> (c: char)
    requires
        d < 10,
    ensures
        c == digit_char(d as nat),
{
    (48 + d as u8) as char
}

/// Appends the decimal numeral of `n` to `out`.
fn push_dec_chars(n: u64, out: &mut Vec<char>)
    ensures
        final(out)@ == old(out)@ + dec_chars(n as nat),
    decreases n,
{
    if n < 10 {
        out.push(digit_to_char(n));
        proof {
            assert(old(out)@.push(digit_char(n as nat)) =~= old(out)@ + dec_chars(n as nat));
        }
    } else {
        push_dec_chars(n / 10, out);
        out.push(digit_to_char(n % 10));
        proof {
            assert((old(out)@ + dec_chars((n / 10) as nat)).push(digit_char((n % 10) as nat))
                =~= old(out)@ + dec_chars(n as nat));
        }
    }
}

/// Renders a fixed-point centi value with two fraction digits.
pub fn centi_to_string(v: i64) -> (s: String)
    requires
        v > i64::MIN,
    ensures
        s@ == centi_chars(v as int),
{
    let m: u64 = if v < 0 {
        (-v) as u64
    } else {
        v as u64
    };
    let mut chars: Vec<char> = Vec::new();
    if v < 0 {
        chars.push('-');
    }
    push_dec_chars(m / 100, &mut chars);
    chars.push('.');
    chars.push(digit_to_char((m % 100) / 10));
    chars.push(digit_to_char(m % 10));
    proof {
        assert(chars@ =~= centi_chars(v as int));
    }
    chars_to_string(chars)
}

/// The memory line printed each text-mode cycle for a sample in
/// centi-megabytes.
pub fn format_memory_line(mb_centi: i64) -> (line: String)
    requires
        mb_centi > i64::MIN,
    ensures
        line@ == memory_line_chars(mb_centi as int),
{
    let mut line = String::from_str("Memory Usage: ");
    let value = centi_to_string(mb_centi);
    line.append(value.as_str());
    line.append(" MB");
    line
}

/// The CPU line printed each text-mode cycle for an aggregate sample in
/// centi-percent.
pub fn format_cpu_line(cpu_centi: i64) -> (line: String)
    requires
        cpu_centi > i64::MIN,
    ensures
        line@ == cpu_line_chars(cpu_centi as int),
{
    let mut line = String::from_str("CPU Usage: ");
    let value = centi_to_string(cpu_centi);
    line.append(value.as_str());
    line.append(" %");
    line
}

/// The memory line for a raw used-memory reading in bytes: conversion to
/// centi-megabytes, then exact fixed-point rendering.
pub fn memory_line_from_bytes(bytes: u64) -> (line: String)
    ensures
        line@ == memory_line_chars(
            crate::sampler::spec_bytes_to_mb_centi(bytes) as int,
        ),
{
    let mb_centi = crate::sampler::bytes_to_mb_centi(bytes);
    format_memory_line(mb_centi as i64)
}

} // verus!
