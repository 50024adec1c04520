//! Time quantities: a positive decimal magnitude with a unit, read either as
//! submissions per unit (a rate) or as units per submission (a duration).
use vstd::prelude::*;

verus! {

/// Largest magnitude accepted, in thousandths of a unit (one billion units).
pub const MAX_THOUSANDTHS: u64 = 1_000_000_000_000;

/// Largest integer part of a magnitude, in whole units.
pub const MAX_WHOLE_UNITS: u64 = 1_000_000_000;

#[derive(PartialEq, Eq, Structural, Clone, Copy, Debug)]
pub enum TimeUnit {
    Hour,
    Minute,
    Second,
}

/// Whether a quantity counts submissions per unit or units per submission.
#[derive(PartialEq, Eq, Structural, Clone, Copy, Debug)]
pub enum TimeType {
    Rate,
    Duration,
}

/// A magnitude in thousandths of `unit`, tagged with how it is read.
#[derive(PartialEq, Eq, Structural, Clone, Copy, Debug)]
pub struct Time {
    pub thousandths: u64,
    pub unit: TimeUnit,
    pub time_type: TimeType,
}

pub open spec fn is_digit(c: char) -> bool {
    '0' <= c && c <= '9'
}

pub open spec fn digit_value(c: char) -> nat {
    (c as int - '0' as int) as nat
}

pub open spec fn all_digits(s: Seq<char>) -> bool {
    forall|i: int| 0 <= i < s.len() ==> is_digit(#[trigger] s[i])
}

/// The number a run of decimal digits denotes.
pub open spec fn digits_value(s: Seq<char>) -> nat
    decreases s.len(),
{
    if s.len() == 0 {
        0
    } else {
        digits_value(s.drop_last()) * 10 + digit_value(s.last())
    }
}

pub open spec fn pow10(n: nat) -> nat
    decreases n,
{
    if n == 0 {
        1
    } else {
        10 * pow10((n - 1) as nat)
    }
}

/// `s` is `whole.frac` with `k` the index of the point: both sides
/// non-empty digit runs, at most three digits after the point.
pub open spec fn decimal_split(s: Seq<char>, k: int) -> bool {
    &&& 0 < k
    &&& k + 1 < s.len()
    &&& s[k] == '.'
    &&& all_digits(s.take(k))
    &&& all_digits(s.skip(k + 1))
    &&& s.len() - (k + 1) <= 3
}

pub open spec fn in_magnitude_range(v: nat) -> Option<nat> {
    if 0 < v && v <= MAX_THOUSANDTHS {
        Some(v)
    } else {
        None
    }
}

/// The magnitude, in thousandths, that `s` writes as a positive decimal
/// number: digits, optionally followed by a point and one to three digits.
pub open spec fn magnitude_of(s: Seq<char>) -> Option<nat> {
    if s.len() > 0 && all_digits(s) {
        in_magnitude_range(digits_value(s) * 1000)
    } else if exists|k: int| decimal_split(s, k) {
        let k = choose|k: int| decimal_split(s, k);
        let frac = s.skip(k + 1);
        in_magnitude_range(
            digits_value(s.take(k)) * 1000 + digits_value(frac) * pow10((3 - frac.len()) as nat),
        )
    } else {
        None
    }
}

pub open spec fn unit_of(c: char) -> Option<TimeUnit> {
    if c == 'h' {
        Some(TimeUnit::Hour)
    } else if c == 'm' {
        Some(TimeUnit::Minute)
    } else if c == 's' {
        Some(TimeUnit::Second)
    } else {
        None
    }
}

pub open spec fn unit_seconds(u: TimeUnit) -> nat {
    match u {
        TimeUnit::Hour => 3600,
        TimeUnit::Minute => 60,
        TimeUnit::Second => 1,
    }
}

/// The quantity of magnitude `m`, when there is one and its pause between
/// submissions is at least one microsecond: a rate may not pass one million
/// per second.
pub open spec fn time_from(m: Option<nat>, unit: TimeUnit, time_type: TimeType) -> Option<Time> {
    match m {
        Some(v) => {
            let t = Time { thousandths: v as u64, unit, time_type };
            if t.spec_interval_micros() > 0 {
                Some(t)
            } else {
                None
            }
        },
        None => None,
    }
}

/// What a time token means: `<n>/<u>` is `n` per unit `u`, `<n><u>` is `n`
/// units per submission, and a bare `<n>` is `n` per second. Units are
/// `h`, `m` and `s`.
pub open spec fn spec_parse_time(s: Seq<char>) -> Option<Time> {
    if s.len() >= 2 && unit_of(s.last()) is Some && s[s.len() - 2] == '/' {
        time_from(magnitude_of(s.take(s.len() - 2)), unit_of(s.last())->0, TimeType::Rate)
    } else if s.len() >= 1 && unit_of(s.last()) is Some {
        time_from(magnitude_of(s.drop_last()), unit_of(s.last())->0, TimeType::Duration)
    } else {
        time_from(magnitude_of(s), TimeUnit::Second, TimeType::Rate)
    }
}

/// What a run length token means: `<n><u>` or a bare `<n>` in seconds.
pub open spec fn spec_parse_duration(s: Seq<char>) -> Option<Time> {
    if s.len() >= 1 && unit_of(s.last()) is Some {
        time_from(magnitude_of(s.drop_last()), unit_of(s.last())->0, TimeType::Duration)
    } else {
        time_from(magnitude_of(s), TimeUnit::Second, TimeType::Duration)
    }
}

impl Time {
    pub open spec fn in_range(self) -> bool {
        0 < self.thousandths <= MAX_THOUSANDTHS
    }

    /// A magnitude in range whose pause between submissions is at least one
    /// microsecond.
    pub open spec fn wf(self) -> bool {
        &&& self.in_range()
        &&& self.spec_interval_micros() > 0
    }

    /// Submissions per second, as a fraction: numerator ...
    pub open spec fn rate_num(self) -> nat {
        match self.time_type {
            TimeType::Rate => self.thousandths as nat,
            TimeType::Duration => 1000,
        }
    }

    /// ... and denominator.
    pub open spec fn rate_den(self) -> nat {
        match self.time_type {
            TimeType::Rate => 1000 * unit_seconds(self.unit),
            TimeType::Duration => (self.thousandths as nat) * unit_seconds(self.unit),
        }
    }

    /// This quantity submits no faster than `other`, compared exactly.
    pub open spec fn rate_le(self, other: Time) -> bool {
        self.rate_num() * other.rate_den() <= other.rate_num() * self.rate_den()
    }

    /// Microseconds between two submissions at this quantity (rounded down
    /// for a rate); for a duration, also its whole length.
    pub open spec fn spec_interval_micros(self) -> nat {
        match self.time_type {
            TimeType::Rate => (unit_seconds(self.unit) * 1_000_000_000) / (self.thousandths as nat),
            TimeType::Duration => (self.thousandths as nat) * unit_seconds(self.unit) * 1000,
        }
    }

    /// One submission per second.
    pub fn one_per_second() -> (t: Time)
        ensures
            t == (Time { thousandths: 1000, unit: TimeUnit::Second, time_type: TimeType::Rate }),
            t.wf(),
    {
        Time { thousandths: 1000, unit: TimeUnit::Second, time_type: TimeType::Rate }
    }

    pub fn interval_micros(&self) -> (r: u64)
        requires
            self.in_range(),
        ensures
            r as nat == self.spec_interval_micros(),
    {
        let secs: u64 = match self.unit {
            TimeUnit::Hour => 3600,
            TimeUnit::Minute => 60,
            TimeUnit::Second => 1,
        };
        assert(secs as nat == unit_seconds(self.unit));
        match self.time_type {
            TimeType::Rate => (secs * 1_000_000_000) / self.thousandths,
            TimeType::Duration => {
                let th = self.thousandths;
                assert(th * secs <= 3_600_000_000_000_000) by (nonlinear_arith)
                    requires
                        th <= MAX_THOUSANDTHS,
                        secs <= 3600,
                ;
                th * secs * 1000
            },
        }
    }

    /// Whether this quantity submits no faster than `other` (see `rate_le`).
    pub fn rate_at_most(&self, other: &Time) -> (r: bool)
        requires
            self.in_range(),
            other.in_range(),
        ensures
            r == self.rate_le(*other),
    {
        let (an, ad) = self.rate_fraction();
        let (bn, bd) = other.rate_fraction();
        assert(an * bd <= 1_000_000_000_000u128 * 3_600_000_000_000_000u128) by (nonlinear_arith)
            requires
                an <= 1_000_000_000_000u128,
                bd <= 3_600_000_000_000_000u128,
        ;
        assert(bn * ad <= 1_000_000_000_000u128 * 3_600_000_000_000_000u128) by (nonlinear_arith)
            requires
                bn <= 1_000_000_000_000u128,
                ad <= 3_600_000_000_000_000u128,
        ;
        an * bd <= bn * ad
    }

    fn rate_fraction(&self) -> (r: (u128, u128))
        requires
            self.in_range(),
        ensures
            r.0 == self.rate_num(),
            r.1 == self.rate_den(),
            r.0 <= 1_000_000_000_000,
            r.1 <= 3_600_000_000_000_000,
    {
        let secs: u128 = match self.unit {
            TimeUnit::Hour => 3600,
            TimeUnit::Minute => 60,
            TimeUnit::Second => 1,
        };
        let th = self.thousandths as u128;
        match self.time_type {
            TimeType::Rate => (th, 1000 * secs),
            TimeType::Duration => {
                assert(th * secs <= 3_600_000_000_000_000) by (nonlinear_arith)
                    requires
                        th <= MAX_THOUSANDTHS,
                        secs <= 3600,
                ;
                (1000, th * secs)
            },
        }
    }

    /// Reads a time token (see `spec_parse_time`).
    pub fn parse(s: &str) -> (r: Option<Time>)
        ensures
            r == spec_parse_time(s@),
            r matches Some(t) ==> t.wf(),
    {
        let n = s.unicode_len();
        if n >= 1 {
            let last = s.get_char(n - 1);
            let unit = parse_unit(last);
            if let Some(u) = unit {
                if n >= 2 && s.get_char(n - 2) == '/' {
                    let m = parse_magnitude(s.substring_char(0, n - 2));
                    proof {
                        assert(s@.take(s@.len() - 2) =~= s@.subrange(0, n - 2));
                    }
                    return make_time(m, u, TimeType::Rate);
                } else {
                    let m = parse_magnitude(s.substring_char(0, n - 1));
                    proof {
                        assert(s@.drop_last() =~= s@.subrange(0, n - 1));
                    }
                    return make_time(m, u, TimeType::Duration);
                }
            }
        }
        make_time(parse_magnitude(s), TimeUnit::Second, TimeType::Rate)
    }

    /// Reads a run length token (see `spec_parse_duration`).
    pub fn make_duration_type_time(s: &str) -> (r: Option<Time>)
        ensures
            r == spec_parse_duration(s@),
            r matches Some(t) ==> t.wf() && t.time_type == TimeType::Duration,
    {
        let n = s.unicode_len();
        if n >= 1 {
            let unit = parse_unit(s.get_char(n - 1));
            if let Some(u) = unit {
                let m = parse_magnitude(s.substring_char(0, n - 1));
                proof {
                    assert(s@.drop_last() =~= s@.subrange(0, n - 1));
                }
                return make_time(m, u, TimeType::Duration);
            }
        }
        make_time(parse_magnitude(s), TimeUnit::Second, TimeType::Duration)
    }
}

fn make_time(m: Option<u64>, unit: TimeUnit, time_type: TimeType) -> (r: Option<Time>)
    requires
        m matches Some(v) ==> 0 < v <= MAX_THOUSANDTHS,
    ensures
        r == time_from(
            match m {
                Some(v) => Some(v as nat),
                None => None,
            },
            unit,
            time_type,
        ),
        r matches Some(t) ==> t.wf(),
{
    match m {
        Some(v) => {
            let t = Time { thousandths: v, unit, time_type };
            if t.interval_micros() > 0 {
                Some(t)
            } else {
                None
            }
        },
        None => None,
    }
}

fn parse_unit(c: char) -> (r: Option<TimeUnit>)
    ensures
        r == unit_of(c),
{
    if c == 'h' {
        Some(TimeUnit::Hour)
    } else if c == 'm' {
        Some(TimeUnit::Minute)
    } else if c == 's' {
        Some(TimeUnit::Second)
    } else {
        None
    }
}

pub fn is_digit_char(c: char) -> (r: bool)
    ensures
        r == is_digit(c),
{
    '0' <= c && c <= '9'
}

/// Reads a decimal magnitude (see `magnitude_of`), in thousandths.
pub fn parse_magnitude(s: &str) -> (r: Option<u64>)
    ensures
        r matches Some(v) ==> magnitude_of(s@) == Some(v as nat),
        r is None ==> magnitude_of(s@) is None,
{
    let n = s.unicode_len();
    let ghost q = s@;
    // whole part, held at MAX_WHOLE_UNITS + 1 once it passes the bound
    let mut whole: u64 = 0;
    let mut i: usize = 0;
    while i < n && is_digit_char(s.get_char(i))
        invariant
            n == q.len(),
            q == s@,
            i <= n,
            all_digits(q.take(i as int)),
            whole as int == (if digits_value(q.take(i as int)) > MAX_WHOLE_UNITS {
                MAX_WHOLE_UNITS + 1
            } else {
                digits_value(q.take(i as int)) as int
            }),
        decreases n - i,
    {
        let c = s.get_char(i);
        let d = (c as u32 - '0' as u32) as u64;
        proof {
            assert(q.take(i + 1).drop_last() =~= q.take(i as int));
            assert(q.take(i + 1).last() == c);
            assert forall|j: int| 0 <= j < i + 1 implies is_digit(#[trigger] q.take(i + 1)[j]) by {
                if j < i {
                    assert(q.take(i + 1)[j] == q.take(i as int)[j]);
                }
            }
        }
        if whole <= MAX_WHOLE_UNITS {
            let next = whole * 10 + d;
            if next > MAX_WHOLE_UNITS {
                whole = MAX_WHOLE_UNITS + 1;
            } else {
                whole = next;
            }
        }
        i = i + 1;
    }
    if i == 0 {
        proof {
            assert(q.len() == 0 || !is_digit(q[0]));
            assert(!all_digits(q) || q.len() == 0);
            assert forall|k: int| !decimal_split(q, k) by {
                if decimal_split(q, k) {
                    assert(q.take(k)[0] == q[0]);
                }
            }
        }
        return None;
    }
    if i == n {
        proof {
            assert(q.take(n as int) =~= q);
        }
        if whole == 0 || whole > MAX_WHOLE_UNITS {
            return None;
        }
        return Some(whole * 1000);
    }
    // a point must follow, then one to three digits
    if s.get_char(i) != '.' || i + 1 == n || n - (i + 1) > 3 {
        proof {
            assert forall|k: int| !decimal_split(q, k) by {
                if decimal_split(q, k) {
                    if k < i {
                        assert(q.take(i as int)[k] == q[k]);
                    } else if k > i {
                        assert(q.take(k)[i as int] == q[i as int]);
                    }
                }
            }
        }
        return None;
    }
    proof {
        assert(pow10(0) == 1);
        assert(pow10(1) == 10);
        assert(pow10(2) == 100);
        assert(pow10(3) == 1000);
        assert(q.subrange(i + 1, i + 1) =~= Seq::<char>::empty());
    }
    let mut frac: u64 = 0;
    let mut j: usize = i + 1;
    while j < n
        invariant
            n == q.len(),
            q == s@,
            i + 1 <= j <= n,
            0 < i < n,
            n - (i + 1) <= 3,
            all_digits(q.take(i as int)),
            q[i as int] == '.',
            pow10(0) == 1,
            pow10(1) == 10,
            pow10(2) == 100,
            pow10(3) == 1000,
            all_digits(q.subrange(i + 1, j as int)),
            frac == digits_value(q.subrange(i + 1, j as int)),
            frac < pow10((j - (i + 1)) as nat),
        decreases n - j,
    {
        let c = s.get_char(j);
        if !is_digit_char(c) {
            proof {
                assert forall|k: int| !decimal_split(q, k) by {
                    if decimal_split(q, k) {
                        if k < i {
                            assert(q.take(i as int)[k] == q[k]);
                        } else if k > i {
                            assert(q.take(k)[i as int] == q[i as int]);
                        } else {
                            assert(q.skip(k + 1)[j - (i + 1)] == q[j as int]);
                        }
                    }
                }
            }
            return None;
        }
        let d = (c as u32 - '0' as u32) as u64;
        proof {
            let p = q.subrange(i + 1, j + 1);
            assert(p.drop_last() =~= q.subrange(i + 1, j as int));
            assert(p.last() == c);
            assert forall|x: int| 0 <= x < p.len() implies is_digit(#[trigger] p[x]) by {
                if x < p.len() - 1 {
                    assert(p[x] == q.subrange(i + 1, j as int)[x]);
                }
            }
            assert(pow10((j + 1 - (i + 1)) as nat) == 10 * pow10((j - (i + 1)) as nat));
        }
        frac = frac * 10 + d;
        j = j + 1;
    }
    let ghost fs = q.skip(i + 1);
    proof {
        assert(fs =~= q.subrange(i + 1, n as int));
        assert(decimal_split(q, i as int));
        assert forall|k: int| decimal_split(q, k) implies k == i by {
            if k < i {
                assert(q.take(i as int)[k] == q[k]);
            } else if k > i {
                assert(q.take(k)[i as int] == q[i as int]);
            }
        }
        assert(!all_digits(q)) by {
            assert(!is_digit(q[i as int]));
        }
    }
    if whole > MAX_WHOLE_UNITS {
        return None;
    }
    let count: usize = n - (i + 1);
    let scale: u64 = if count == 1 {
        100
    } else if count == 2 {
        10
    } else {
        1
    };
    proof {
        assert(scale == pow10((3 - fs.len()) as nat));
        assert(frac * scale < 1000) by (nonlinear_arith)
            requires
                frac < pow10(count as nat),
                scale == pow10((3 - count) as nat),
                1 <= count <= 3,
                pow10(1) == 10,
                pow10(2) == 100,
                pow10(3) == 1000,
                pow10(0) == 1,
        ;
    }
    let v = whole * 1000 + frac * scale;
    if v == 0 || v > MAX_THOUSANDTHS {
        return None;
    }
    Some(v)
}

} // verus!
