//! Formatting of a signed time span as a compact human-readable string.
//!
//! A span is decomposed into weeks, days, hours, minutes, seconds,
//! milliseconds, microseconds and nanoseconds; the non-zero buckets are
//! rendered coarsest first and joined with `", "`.

use vstd::prelude::*;
use vstd::arithmetic::div_mod::{
    lemma_div_denominator, lemma_fundamental_div_mod, lemma_fundamental_div_mod_converse,
    lemma_mod_bound, lemma_mod_multiples_vanish, lemma_multiply_divide_lt, lemma_small_mod,
};
use crate::decimal::{dec_rep, u64_to_string};
use vstd::string::StringExecFns;

verus! {

/// A signed time span with nanosecond resolution, held as whole seconds
/// plus a sub-second remainder, both truncated toward zero.
///
/// The value it denotes is `secs * 1_000_000_000 + nanos` nanoseconds.
pub struct Span {
    /// Whole seconds, truncated toward zero.
    pub secs: i64,
    /// Sub-second nanoseconds, truncated toward zero; same sign as `secs`.
    pub nanos: i32,
}

/// The conditions under which a (seconds, sub-second nanoseconds) pair is a
/// faithful truncated-toward-zero decomposition of some span.
pub open spec fn wf_parts(secs: int, nanos: int) -> bool {
    &&& i64::MIN < secs
    &&& -999_999_999 <= nanos <= 999_999_999
    &&& (secs > 0 ==> nanos >= 0)
    &&& (secs < 0 ==> nanos <= 0)
}

impl Span {
    /// Well-formedness: the two fields agree in sign and the sub-second part
    /// is a true remainder.
    pub open spec fn wf(self) -> bool {
        wf_parts(self.secs as int, self.nanos as int)
    }

    /// The whole span, in nanoseconds.
    pub open spec fn total_ns(self) -> int {
        self.secs * 1_000_000_000 + self.nanos
    }

    /// The magnitude of the span, in nanoseconds.
    pub open spec fn mag_ns(self) -> int {
        if self.total_ns() < 0 {
            -self.total_ns()
        } else {
            self.total_ns()
        }
    }

    /// Builds a span from its parts, rejecting pairs that are not a
    /// truncated-toward-zero decomposition.
    pub fn new(secs: i64, nanos: i32) -> (r: Option<Span>)
        ensures
            r matches Some(sp) ==> sp.wf() && sp.secs == secs && sp.nanos == nanos,
            r is None <==> !wf_parts(secs as int, nanos as int),
    {
        if secs > i64::MIN && -999_999_999 <= nanos && nanos <= 999_999_999
            && (secs <= 0 || nanos >= 0) && (secs >= 0 || nanos <= 0) {
            Some(Span { secs, nanos })
        } else {
            None
        }
    }
}

/// The one failure of the formatter: the span's magnitude exceeds
/// `i64::MAX` nanoseconds, so a whole-nanosecond count of it cannot be
/// extracted from the underlying representation.
#[derive(Clone, Copy, Debug, PartialEq, Eq, Structural)]
pub enum FormatError {
    SubsecondOverflow,
}

/// Whole weeks in a magnitude of `m` nanoseconds.
pub open spec fn weeks_of(m: int) -> int {
    m / 604_800_000_000_000
}

/// Whole days in `m` nanoseconds, after the weeks are taken out.
pub open spec fn days_of(m: int) -> int {
    (m / 86_400_000_000_000) % 7
}

/// Whole hours in `m` nanoseconds, after the days are taken out.
pub open spec fn hours_of(m: int) -> int {
    (m / 3_600_000_000_000) % 24
}

/// Whole minutes in `m` nanoseconds, after the hours are taken out.
pub open spec fn minutes_of(m: int) -> int {
    (m / 60_000_000_000) % 60
}

/// Whole seconds in `m` nanoseconds, after the minutes are taken out.
pub open spec fn seconds_of(m: int) -> int {
    (m / 1_000_000_000) % 60
}

/// Whole milliseconds in `m` nanoseconds, after the seconds are taken out.
pub open spec fn millis_of(m: int) -> int {
    (m / 1_000_000) % 1_000
}

/// Whole microseconds in `m` nanoseconds, after the milliseconds are taken out.
pub open spec fn micros_of(m: int) -> int {
    (m / 1_000) % 1_000
}

/// Leftover nanoseconds in `m`, after the microseconds are taken out.
pub open spec fn nanos_of(m: int) -> int {
    m % 1_000
}

/// Appends one bucket to a partly built rendering: nothing when the bucket
/// is empty, otherwise the decimal value and its suffix, preceded by the
/// separator when something already stands in `acc`.
pub open spec fn append_part_spec(acc: Seq<char>, v: int, sfx: Seq<char>) -> Seq<char> {
    if v <= 0 {
        acc
    } else if acc.len() == 0 {
        dec_rep(v) + sfx
    } else {
        acc + ", "@ + dec_rep(v) + sfx
    }
}

/// The rendering of a magnitude of `m` nanoseconds: the eight buckets,
/// coarsest first, each appended when non-zero.
pub open spec fn spec_format(m: int) -> Seq<char> {
    append_part_spec(
        append_part_spec(
            append_part_spec(
                append_part_spec(
                    append_part_spec(
                        append_part_spec(
                            append_part_spec(
                                append_part_spec(Seq::empty(), weeks_of(m), "w"@),
                                days_of(m),
                                "d"@,
                            ),
                            hours_of(m),
                            "h"@,
                        ),
                        minutes_of(m),
                        "m"@,
                    ),
                    seconds_of(m),
                    "s"@,
                ),
                millis_of(m),
                "ms"@,
            ),
            micros_of(m),
            "\u{3bc}s"@,
        ),
        nanos_of(m),
        "ns"@,
    )
}

/// The buckets of a magnitude `m == s * 1_000_000_000 + n` can be read off
/// the whole-second part `s` and the sub-second part `n` separately.
proof fn lemma_buckets(s: int, n: int, m: int)
    requires
        0 <= s,
        0 <= n < 1_000_000_000,
        m == s * 1_000_000_000 + n,
    ensures
        weeks_of(m) == s / 604_800,
        days_of(m) == (s / 86_400) % 7,
        hours_of(m) == (s / 3_600) % 24,
        minutes_of(m) == (s / 60) % 60,
        seconds_of(m) == s % 60,
        millis_of(m) == n / 1_000_000,
        micros_of(m) == (n / 1_000) % 1_000,
        nanos_of(m) == n % 1_000,
{
    lemma_fundamental_div_mod_converse(m, 1_000_000_000, s, n);
    assert(m / 1_000_000_000 == s);
    lemma_div_denominator(m, 1_000_000_000, 604_800);
    assert(1_000_000_000 * 604_800 == 604_800_000_000_000);
    lemma_div_denominator(m, 1_000_000_000, 86_400);
    assert(1_000_000_000 * 86_400 == 86_400_000_000_000);
    lemma_div_denominator(m, 1_000_000_000, 3_600);
    assert(1_000_000_000 * 3_600 == 3_600_000_000_000);
    lemma_div_denominator(m, 1_000_000_000, 60);
    assert(1_000_000_000 * 60 == 60_000_000_000);
    // milliseconds
    lemma_fundamental_div_mod(n, 1_000_000);
    lemma_mod_bound(n, 1_000_000);
    assert(m == (s * 1_000 + n / 1_000_000) * 1_000_000 + n % 1_000_000) by (nonlinear_arith)
        requires
            m == s * 1_000_000_000 + n,
            n == 1_000_000 * (n / 1_000_000) + (n % 1_000_000),
    ;
    lemma_fundamental_div_mod_converse(m, 1_000_000, s * 1_000 + n / 1_000_000, n % 1_000_000);
    assert(s * 1_000 + n / 1_000_000 == 1_000 * s + n / 1_000_000) by (nonlinear_arith);
    lemma_mod_multiples_vanish(s, n / 1_000_000, 1_000);
    lemma_multiply_divide_lt(n, 1_000_000, 1_000);
    lemma_small_mod((n / 1_000_000) as nat, 1_000);
    // microseconds
    lemma_fundamental_div_mod(n, 1_000);
    lemma_mod_bound(n, 1_000);
    assert(m == (s * 1_000_000 + n / 1_000) * 1_000 + n % 1_000) by (nonlinear_arith)
        requires
            m == s * 1_000_000_000 + n,
            n == 1_000 * (n / 1_000) + (n % 1_000),
    ;
    lemma_fundamental_div_mod_converse(m, 1_000, s * 1_000_000 + n / 1_000, n % 1_000);
    assert(s * 1_000_000 + n / 1_000 == 1_000 * (s * 1_000) + n / 1_000) by (nonlinear_arith);
    lemma_mod_multiples_vanish(s * 1_000, n / 1_000, 1_000);
    // nanoseconds
    assert(m == 1_000 * (s * 1_000_000) + n) by (nonlinear_arith)
        requires
            m == s * 1_000_000_000 + n,
    ;
    lemma_mod_multiples_vanish(s * 1_000_000, n, 1_000);
}

/// Appends one bucket to the string being built, exactly as
/// `append_part_spec` describes.
fn append_part(s: &mut String, v: u64, suffix: &str)
    ensures
        final(s)@ == append_part_spec(old(s)@, v as int, suffix@),
{
    if v > 0 {
        if !s.as_str().is_empty() {
            s.append(", ");
        }
        let num = u64_to_string(v);
        s.append(num.as_str());
        s.append(suffix);
    }
}

/// Renders a well-formed span.
///
/// The magnitude of the span is decomposed into weeks, days, hours, minutes,
/// seconds, milliseconds, microseconds and nanoseconds; the non-zero buckets
/// are rendered coarsest first, each as `<value><suffix>`, joined with `", "`.
/// A zero span renders as the empty string; the sign is discarded.
///
/// Fails exactly when the magnitude exceeds `i64::MAX` nanoseconds, the
/// point past which a whole-nanosecond count of the span cannot be taken.
pub fn format_span(sp: Span) -> (r: Result<String, FormatError>)
    requires
        sp.wf(),
    ensures
        r matches Ok(out) ==> out@ == spec_format(sp.mag_ns()),
        r is Err <==> sp.mag_ns() > i64::MAX,
{
    let abs_secs: i64 = if sp.secs < 0 {
        -sp.secs
    } else {
        sp.secs
    };
    let abs_nanos: i32 = if sp.nanos < 0 {
        -sp.nanos
    } else {
        sp.nanos
    };
    if abs_secs > 9_223_372_036 || (abs_secs == 9_223_372_036 && abs_nanos > 854_775_807) {
        return Err(FormatError::SubsecondOverflow);
    }
    proof {
        lemma_buckets(abs_secs as int, abs_nanos as int, sp.mag_ns());
    }
    let w: i64 = abs_secs / 604_800;
    let d: i64 = (abs_secs / 86_400) % 7;
    let h: i64 = (abs_secs / 3_600) % 24;
    let mi: i64 = (abs_secs / 60) % 60;
    let se: i64 = abs_secs % 60;
    let ms: i32 = abs_nanos / 1_000_000;
    let us: i32 = (abs_nanos / 1_000) % 1_000;
    let ns: i32 = abs_nanos % 1_000;
    let mut out = String::new();
    append_part(&mut out, w as u64, "w");
    append_part(&mut out, d as u64, "d");
    append_part(&mut out, h as u64, "h");
    append_part(&mut out, mi as u64, "m");
    append_part(&mut out, se as u64, "s");
    append_part(&mut out, ms as u64, "ms");
    append_part(&mut out, us as u64, "\u{3bc}s");
    append_part(&mut out, ns as u64, "ns");
    Ok(out)
}

#[verifier::external_type_specification]
#[verifier::external_body]
pub struct ExTimeDelta(chrono::TimeDelta);

pub uninterp spec fn delta_secs(d: chrono::TimeDelta) -> i64;

pub uninterp spec fn delta_subsec_nanos(d: chrono::TimeDelta) -> i32;

/// The model of a `chrono::TimeDelta`: the span whose parts are what
/// `num_seconds` and `subsec_nanos` return for it.
pub open spec fn delta_span(d: chrono::TimeDelta) -> Span {
    Span { secs: delta_secs(d), nanos: delta_subsec_nanos(d) }
}

/// Relies on `chrono::TimeDelta::num_seconds` and
/// `chrono::TimeDelta::subsec_nanos`, whose results depend on the duration's
/// value alone; `delta_secs` and `delta_subsec_nanos` name them. They split
/// the span into whole seconds and a sub-second remainder, both truncated
/// toward zero, so the remainder is below one second in magnitude and never
/// of the opposite sign, and the seconds stay within the type's documented
/// range of `±i64::MAX` milliseconds, hence above `i64::MIN`.
#[verifier::external_body]
fn span_of_chrono(d: &chrono::TimeDelta) -> (r: Span)
    ensures
        r.secs == delta_secs(*d),
        r.nanos == delta_subsec_nanos(*d),
        r.wf(),
{
    Span { secs: d.num_seconds(), nanos: d.subsec_nanos() }
}

/// What the formatter returns for a span: an error exactly when the
/// magnitude exceeds `i64::MAX` nanoseconds, otherwise the rendering of
/// the magnitude.
pub open spec fn spec_format_result(sp: Span, r: Result<String, FormatError>) -> bool {
    &&& (r is Err <==> sp.mag_ns() > i64::MAX)
    &&& (r matches Ok(out) ==> out@ == spec_format(sp.mag_ns()))
}

/// Formats a duration as a human-readable string, such as `"1h, 23m, 45s"`.
///
/// The duration's magnitude is decomposed into weeks, days, hours, minutes,
/// seconds, milliseconds, microseconds and nanoseconds; the non-zero buckets
/// are joined with `", "`, coarsest first. A zero duration gives the empty
/// string; the sign is discarded. Fails exactly when the magnitude exceeds
/// `i64::MAX` nanoseconds.
pub fn format_duration(durr: chrono::Duration) -> (r: Result<String, FormatError>)
    ensures
        delta_span(durr).wf(),
        spec_format_result(delta_span(durr), r),
{
    let sp = span_of_chrono(&durr);
    let r = format_span(sp);
    r
}

} // verus!
