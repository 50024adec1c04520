//! Target rate expressions: a single rate, or a `min-max` range of rates,
//! and the choice of one worker's pace from such a range.
use vstd::prelude::*;
use crate::time::{Time, TimeType, TimeUnit, spec_parse_time, all_digits, digits_value, magnitude_of, unit_of, unit_seconds, is_digit};
use rand::rngs::StdRng;

verus! {

/// rand's standard generator, carried through opaque: the library only
/// hands it to `draw_between` and `draw_seed`.
#[verifier::external_type_specification]
#[verifier::external_body]
pub struct ExStdRng(StdRng);

/// Relies on rand 0.8's `Rng::gen_range` over an inclusive range: the value
/// lies in `lo..=hi`. It panics on an empty range, which `requires` rules out.
#[verifier::external_body]
fn draw_between(rng: &mut StdRng, lo: u64, hi: u64) -> (r: u64)
    requires
        lo <= hi,
    ensures
        lo <= r <= hi,
{
    rand::Rng::gen_range(rng, lo..=hi)
}

/// A parsed target rate: the slowest and the fastest rate a worker may run
/// at. A single rate is a range whose two ends are the same.
#[derive(PartialEq, Eq, Structural, Clone, Copy, Debug)]
pub struct RateSpec {
    pub min: Time,
    pub max: Time,
}

/// Why a target rate expression was refused.
#[derive(PartialEq, Eq, Structural, Clone, Copy, Debug)]
pub enum RateParseError {
    /// The part before the `-` of a range is no rate.
    MinUnparseable,
    /// The part after the `-` of a range is no rate.
    MaxUnparseable,
    /// A single rate that cannot be read.
    Unparseable,
    /// A range whose first end is faster than its second.
    Inverted,
}

impl RateSpec {
    /// Both ends are well formed and `min` submits no faster than `max`,
    /// compared exactly.
    pub open spec fn wf(self) -> bool {
        &&& self.min.wf()
        &&& self.max.wf()
        &&& self.min.rate_le(self.max)
    }

    pub open spec fn is_fixed(self) -> bool {
        self.min == self.max
    }

    /// The rate used when none is given: one submission per second.
    pub fn one_per_second() -> (r: RateSpec)
        ensures
            r.wf(),
            r.is_fixed(),
            r.min == (Time { thousandths: 1000, unit: TimeUnit::Second, time_type: TimeType::Rate }),
    {
        let t = Time::one_per_second();
        RateSpec { min: t, max: t }
    }

    pub fn is_fixed_rate(&self) -> (r: bool)
        ensures
            r == self.is_fixed(),
    {
        self.min == self.max
    }

    /// The pause between submissions for one worker, in microseconds: the
    /// pause of the single rate, or a value drawn between the pauses of the
    /// two ends of the range.
    pub fn sample_interval(&self, rng: &mut StdRng) -> (r: u64)
        requires
            self.wf(),
        ensures
            self.max.spec_interval_micros() <= r <= self.min.spec_interval_micros(),
            self.is_fixed() ==> r == self.min.spec_interval_micros(),
    {
        if self.min == self.max {
            self.min.interval_micros()
        } else {
            proof {
                lemma_slower_waits_longer(self.min, self.max);
            }
            let lo = self.max.interval_micros();
            let hi = self.min.interval_micros();
            draw_between(rng, lo, hi)
        }
    }
}

/// `k` is the index of the first `-` in `s`.
pub open spec fn first_dash(s: Seq<char>, k: int) -> bool {
    &&& 0 <= k < s.len()
    &&& s[k] == '-'
    &&& forall|j: int| 0 <= j < k ==> s[j] != '-'
}

pub open spec fn range_of(min: Time, max: Time) -> Result<RateSpec, RateParseError> {
    if min.rate_le(max) {
        Ok(RateSpec { min, max })
    } else {
        Err(RateParseError::Inverted)
    }
}

/// What a target rate expression means. With a `-`, the text before the
/// first `-` is the slow end and the rest the fast end; without one, the
/// whole text is a single rate.
pub open spec fn spec_parse_rate(s: Seq<char>) -> Result<RateSpec, RateParseError> {
    if exists|k: int| first_dash(s, k) {
        let k = choose|k: int| first_dash(s, k);
        match (spec_parse_time(s.take(k)), spec_parse_time(s.skip(k + 1))) {
            (None, _) => Err(RateParseError::MinUnparseable),
            (Some(_), None) => Err(RateParseError::MaxUnparseable),
            (Some(a), Some(b)) => range_of(a, b),
        }
    } else {
        match spec_parse_time(s) {
            Some(t) => Ok(RateSpec { min: t, max: t }),
            None => Err(RateParseError::Unparseable),
        }
    }
}

/// Reads a target rate expression (see `spec_parse_rate`).
pub fn parse_rate(s: &str) -> (r: Result<RateSpec, RateParseError>)
    ensures
        r == spec_parse_rate(s@),
        r matches Ok(spec) ==> spec.wf(),
{
    let n = s.unicode_len();
    let mut k: usize = 0;
    while k < n && s.get_char(k) != '-'
        invariant
            n == s@.len(),
            k <= n,
            forall|j: int| 0 <= j < k ==> s@[j] != '-',
        decreases n - k,
    {
        k = k + 1;
    }
    if k == n {
        proof {
            assert forall|x: int| !first_dash(s@, x) by {}
        }
        match Time::parse(s) {
            Some(t) => Ok(RateSpec { min: t, max: t }),
            None => Err(RateParseError::Unparseable),
        }
    } else {
        proof {
            assert(first_dash(s@, k as int));
            assert forall|x: int| first_dash(s@, x) implies x == k by {
                if x < k {
                } else if x > k {
                    assert(s@[k as int] == '-');
                }
            }
        }
        let low = s.substring_char(0, k);
        let high = s.substring_char(k + 1, n);
        proof {
            assert(low@ =~= s@.take(k as int));
            assert(high@ =~= s@.skip(k + 1));
        }
        let min = match Time::parse(low) {
            Some(t) => t,
            None => return Err(RateParseError::MinUnparseable),
        };
        let max = match Time::parse(high) {
            Some(t) => t,
            None => return Err(RateParseError::MaxUnparseable),
        };
        if min.rate_at_most(&max) {
            Ok(RateSpec { min, max })
        } else {
            Err(RateParseError::Inverted)
        }
    }
}

/// Reads the target rate option: one submission per second when absent.
pub fn parse_target_rate(s: Option<&str>) -> (r: Result<RateSpec, RateParseError>)
    ensures
        s is None ==> r == Ok::<RateSpec, RateParseError>(
            RateSpec {
                min: Time { thousandths: 1000, unit: TimeUnit::Second, time_type: TimeType::Rate },
                max: Time { thousandths: 1000, unit: TimeUnit::Second, time_type: TimeType::Rate },
            },
        ),
        s matches Some(t) ==> r == spec_parse_rate(t@),
        r matches Ok(spec) ==> spec.wf(),
{
    match s {
        Some(t) => parse_rate(t),
        None => Ok(RateSpec::one_per_second()),
    }
}

/// A single rate written as whole units (at most one million), `<n>/<u>` or
/// a bare `<n>`, reads
/// as a range whose two ends are both exactly `n` per unit (per second when
/// no unit is written).
pub proof fn lemma_single_rate_is_fixed(digits: Seq<char>, u: char)
    requires
        digits.len() > 0,
        all_digits(digits),
        0 < digits_value(digits) <= 1_000_000,
        unit_of(u) is Some,
    ensures
        spec_parse_rate(digits + seq!['/', u]) == Ok::<RateSpec, RateParseError>(
            RateSpec {
                min: Time {
                    thousandths: (digits_value(digits) * 1000) as u64,
                    unit: unit_of(u)->0,
                    time_type: TimeType::Rate,
                },
                max: Time {
                    thousandths: (digits_value(digits) * 1000) as u64,
                    unit: unit_of(u)->0,
                    time_type: TimeType::Rate,
                },
            },
        ),
        spec_parse_rate(digits) == Ok::<RateSpec, RateParseError>(
            RateSpec {
                min: Time {
                    thousandths: (digits_value(digits) * 1000) as u64,
                    unit: TimeUnit::Second,
                    time_type: TimeType::Rate,
                },
                max: Time {
                    thousandths: (digits_value(digits) * 1000) as u64,
                    unit: TimeUnit::Second,
                    time_type: TimeType::Rate,
                },
            },
        ),
{
    let s = digits + seq!['/', u];
    assert(s.take(s.len() - 2) =~= digits);
    assert(s.last() == u);
    assert(s[s.len() - 2] == '/');
    assert(magnitude_of(digits) == Some(digits_value(digits) * 1000));
    let v = digits_value(digits) * 1000;
    assert(unit_seconds(unit_of(u)->0) * 1_000_000_000 / v >= 1) by (nonlinear_arith)
        requires
            0 < v <= 1_000_000_000,
            unit_seconds(unit_of(u)->0) >= 1,
    ;
    assert(1_000_000_000nat / v >= 1) by (nonlinear_arith)
        requires
            0 < v <= 1_000_000_000,
    ;
    assert forall|k: int| !first_dash(s, k) by {
        if 0 <= k < digits.len() {
            assert(s[k] == digits[k]);
            assert(is_digit(digits[k]));
        }
    }
    assert forall|k: int| !first_dash(digits, k) by {
        if 0 <= k < digits.len() {
            assert(is_digit(digits[k]));
        }
    }
    assert(unit_of(digits.last()) is None) by {
        assert(is_digit(digits[digits.len() - 1]));
    }
}

/// Every range the parser accepts is ordered: its slow end is no faster
/// than its fast end, and both ends are well formed.
pub proof fn lemma_parsed_rates_are_ordered(s: Seq<char>)
    requires
        spec_parse_rate(s) is Ok,
    ensures
        spec_parse_rate(s)->Ok_0.wf(),
{
    if exists|k: int| first_dash(s, k) {
        let k = choose|k: int| first_dash(s, k);
        lemma_parsed_time_wf(s.take(k));
        lemma_parsed_time_wf(s.skip(k + 1));
    } else {
        lemma_parsed_time_wf(s);
    }
}

/// A time token that reads at all reads as a well-formed quantity.
pub proof fn lemma_parsed_time_wf(s: Seq<char>)
    ensures
        spec_parse_time(s) matches Some(t) ==> t.wf(),
{
}

/// In `min-max`, where `min` holds no `-`, an unreadable `min` is reported
/// as such whatever `max` is, and with a readable `min` an unreadable `max`
/// is reported as such.
pub proof fn lemma_range_error_names_its_side(min: Seq<char>, max: Seq<char>)
    requires
        forall|j: int| 0 <= j < min.len() ==> min[j] != '-',
    ensures
        spec_parse_time(min) is None ==> spec_parse_rate(min + seq!['-'] + max) == Err::<
            RateSpec,
            RateParseError,
        >(RateParseError::MinUnparseable),
        spec_parse_time(min) is Some && spec_parse_time(max) is None ==> spec_parse_rate(
            min + seq!['-'] + max,
        ) == Err::<RateSpec, RateParseError>(RateParseError::MaxUnparseable),
{
    let s = min + seq!['-'] + max;
    let k = min.len() as int;
    assert(s[k] == '-');
    assert forall|j: int| 0 <= j < k implies s[j] != '-' by {
        assert(s[j] == min[j]);
    }
    assert(first_dash(s, k));
    assert forall|x: int| first_dash(s, x) implies x == k by {
        if x < k {
            assert(s[x] == min[x]);
        }
    }
    assert(s.take(k) =~= min);
    assert(s.skip(k + 1) =~= max);
}

/// The pause between submissions, in whole microseconds, is one million
/// times the denominator of the rate over its numerator, rounded down.
pub proof fn lemma_interval_is_inverse_rate(t: Time)
    requires
        t.in_range(),
    ensures
        t.spec_interval_micros() == (1_000_000 * t.rate_den()) / t.rate_num(),
{
    let u = unit_seconds(t.unit);
    let th = t.thousandths as nat;
    match t.time_type {
        TimeType::Rate => {
            assert(1_000_000 * (1000 * u) == u * 1_000_000_000);
        },
        TimeType::Duration => {
            assert((1_000_000 * (th * u)) / 1000 == th * u * 1000) by (nonlinear_arith)
                requires
                    th >= 0,
                    u >= 0,
            ;
        },
    }
}

/// A quantity that submits no faster than another waits at least as long
/// between submissions.
pub proof fn lemma_slower_waits_longer(slow: Time, fast: Time)
    requires
        slow.in_range(),
        fast.in_range(),
        slow.rate_le(fast),
    ensures
        fast.spec_interval_micros() <= slow.spec_interval_micros(),
{
    lemma_interval_is_inverse_rate(slow);
    lemma_interval_is_inverse_rate(fast);
    let a = slow.rate_num();
    let c = fast.rate_num();
    let x = 1_000_000 * fast.rate_den();
    let y = 1_000_000 * slow.rate_den();
    assert(a > 0 && c > 0);
    assert(x * a <= y * c) by (nonlinear_arith)
        requires
            a * fast.rate_den() <= c * slow.rate_den(),
            x == 1_000_000 * fast.rate_den(),
            y == 1_000_000 * slow.rate_den(),
    ;
    let f = x / c;
    assert(f * c <= x) by (nonlinear_arith)
        requires
            c > 0,
            f == x / c,
    ;
    assert(f * a <= y) by (nonlinear_arith)
        requires
            f * c <= x,
            x * a <= y * c,
            a > 0,
            c > 0,
            f >= 0,
    ;
    assert(f <= y / a) by (nonlinear_arith)
        requires
            f * a <= y,
            a > 0,
            f >= 0,
    ;
}

} // verus!
