//! Instants and spans on the TAI time axis, counted in nanoseconds.
//!
//! Both types hold the two parts that `hifitime` keeps for a duration: a signed
//! number of centuries and the nanoseconds into that century. Their view is the
//! signed number of nanoseconds that the two parts stand for. The arithmetic is
//! `hifitime`'s own, called on values for which its source shows it to be exact.

use vstd::prelude::*;

verus! {

/// Nanoseconds in a Julian century of 36 525 days.
pub const NANOSECONDS_PER_CENTURY: u64 = 3_155_760_000_000_000_000;

/// An `Epoch` lies at most this many centuries before or after the reference epoch.
pub const MAX_EPOCH_CENTURIES: i16 = 16_383;

/// The centuries of a `Duration` lie between `-MAX_DURATION_CENTURIES - 1` and
/// `MAX_DURATION_CENTURIES`, so that the difference of two epochs is always one.
pub const MAX_DURATION_CENTURIES: i16 = 32_766;

/// The signed number of nanoseconds that a pair of parts stands for.
pub open spec fn parts_value(centuries: i16, nanoseconds: u64) -> int {
    centuries as int * 3_155_760_000_000_000_000 + nanoseconds as int
}

/// The parts of an epoch: normalized, and within the supported centuries.
pub open spec fn epoch_parts(centuries: i16, nanoseconds: u64) -> bool {
    &&& nanoseconds < 3_155_760_000_000_000_000
    &&& -16_383 <= centuries <= 16_383
}

/// The parts of a duration: normalized, and within the supported centuries.
pub open spec fn duration_parts(centuries: i16, nanoseconds: u64) -> bool {
    &&& nanoseconds < 3_155_760_000_000_000_000
    &&& -32_767 <= centuries <= 32_766
}

/// The instants that an `Epoch` can hold, in nanoseconds since the reference epoch.
pub open spec fn epoch_range(t: int) -> bool {
    -16_383 * 3_155_760_000_000_000_000 <= t < 16_384 * 3_155_760_000_000_000_000
}

/// The spans that a `Duration` can hold, in nanoseconds.
pub open spec fn duration_range(d: int) -> bool {
    -32_767 * 3_155_760_000_000_000_000 <= d < 32_767 * 3_155_760_000_000_000_000
}

/// Normalized parts are ordered as the values they stand for, and are fixed by them.
pub proof fn lemma_parts_order(c1: i16, n1: u64, c2: i16, n2: u64)
    requires
        n1 < NANOSECONDS_PER_CENTURY,
        n2 < NANOSECONDS_PER_CENTURY,
    ensures
        parts_value(c1, n1) < parts_value(c2, n2) <==> (c1 < c2 || (c1 == c2 && n1 < n2)),
        parts_value(c1, n1) == parts_value(c2, n2) <==> (c1 == c2 && n1 == n2),
{
}

/// The centuries of normalized parts follow the value: a value within the range of
/// epochs has the centuries of an epoch, and likewise for durations.
pub proof fn lemma_parts_range(c: i16, n: u64)
    requires
        n < NANOSECONDS_PER_CENTURY,
    ensures
        epoch_range(parts_value(c, n)) <==> epoch_parts(c, n),
        duration_range(parts_value(c, n)) <==> duration_parts(c, n),
{
}

/// A unit of time, as `hifitime` names them.
#[derive(Clone, Copy, Debug, PartialEq, Eq, Structural)]
pub enum Unit {
    Nanosecond,
    Microsecond,
    Millisecond,
    Second,
    Minute,
    Hour,
    Day,
    Century,
}

impl Unit {
    /// The nanoseconds in one unit.
    pub open spec fn nanos(self) -> int {
        match self {
            Unit::Nanosecond => 1,
            Unit::Microsecond => 1_000,
            Unit::Millisecond => 1_000_000,
            Unit::Second => 1_000_000_000,
            Unit::Minute => 60_000_000_000,
            Unit::Hour => 3_600_000_000_000,
            Unit::Day => 86_400_000_000_000,
            Unit::Century => 3_155_760_000_000_000_000,
        }
    }

    /// The nanoseconds in one unit.
    pub fn in_nanoseconds(self) -> (r: i64)
        ensures
            r == self.nanos(),
    {
        match self {
            Unit::Nanosecond => 1,
            Unit::Microsecond => 1_000,
            Unit::Millisecond => 1_000_000,
            Unit::Second => 1_000_000_000,
            Unit::Minute => 60_000_000_000,
            Unit::Hour => 3_600_000_000_000,
            Unit::Day => 86_400_000_000_000,
            Unit::Century => 3_155_760_000_000_000_000,
        }
    }

    /// `q` units as a duration, where the nanoseconds fit in 64 bits; `None` where
    /// they do not.
    pub fn times(self, q: i64) -> (r: Option<Duration>)
        ensures
            r is Some <==> -i64::MAX <= q * self.nanos() <= i64::MAX,
            r matches Some(d) ==> d@ == q * self.nanos(),
    {
        let factor: i64 = self.in_nanoseconds();
        match q.checked_mul(factor) {
            Some(total) => {
                if total == i64::MIN {
                    None
                } else {
                    let p = hifi_unit_times(q, self);
                    proof {
                        lemma_parts_range(p.0, p.1);
                    }
                    Some(Duration { centuries: p.0, nanoseconds: p.1 })
                }
            },
            None => None,
        }
    }
}

/// A signed span of time.
#[derive(Clone, Copy, Debug, PartialEq, Eq, PartialOrd, Ord, Hash, Structural)]
pub struct Duration {
    centuries: i16,
    nanoseconds: u64,
}

impl View for Duration {
    type V = int;

    /// The span in nanoseconds.
    closed spec fn view(&self) -> int {
        parts_value(self.centuries, self.nanoseconds)
    }
}

impl Duration {
    /// Whether the parts are those of a duration. It holds of every duration that
    /// a program holds.
    #[verifier::type_invariant]
    pub closed spec fn well_formed(self) -> bool {
        duration_parts(self.centuries, self.nanoseconds)
    }

    /// A well-formed duration is within the range of durations.
    pub proof fn lemma_well_formed(self)
        requires
            self.well_formed(),
        ensures
            duration_range(self@),
            duration_parts(self.parts().0, self.parts().1),
    {
        lemma_parts_range(self.centuries, self.nanoseconds);
    }

    /// The parts of the duration, as a spec function.
    pub closed spec fn parts(self) -> (i16, u64) {
        (self.centuries, self.nanoseconds)
    }

    /// The view is the value of the parts.
    pub proof fn lemma_view(self)
        ensures
            self@ == parts_value(self.parts().0, self.parts().1),
    {
    }

    /// The duration with these parts; `None` unless they are the parts of a duration.
    pub fn from_parts(centuries: i16, nanoseconds: u64) -> (r: Option<Duration>)
        ensures
            r is Some <==> duration_parts(centuries, nanoseconds),
            r matches Some(d) ==> d@ == parts_value(centuries, nanoseconds) && d.parts() == (
                centuries,
                nanoseconds,
            ),
    {
        if nanoseconds < NANOSECONDS_PER_CENTURY && -32_767 <= centuries && centuries <= 32_766 {
            Some(Duration { centuries, nanoseconds })
        } else {
            None
        }
    }

    /// The centuries and the nanoseconds into the century.
    pub fn to_parts(&self) -> (p: (i16, u64))
        ensures
            p == self.parts(),
            duration_parts(p.0, p.1),
            parts_value(p.0, p.1) == self@,
            duration_range(self@),
    {
        proof {
            use_type_invariant(self);
            lemma_parts_range(self.centuries, self.nanoseconds);
        }
        (self.centuries, self.nanoseconds)
    }

    /// The empty span.
    pub fn zero() -> (r: Duration)
        ensures
            r@ == 0,
    {
        Duration { centuries: 0, nanoseconds: 0 }
    }

    /// A span of `nanoseconds` nanoseconds.
    pub fn from_nanoseconds(nanoseconds: i64) -> (r: Duration)
        ensures
            r@ == nanoseconds,
    {
        let p = hifi_from_nanoseconds(nanoseconds);
        proof {
            lemma_parts_range(p.0, p.1);
        }
        Duration { centuries: p.0, nanoseconds: p.1 }
    }

    /// Whether the span is longer than nothing.
    pub fn is_positive(&self) -> (r: bool)
        ensures
            r == (self@ > 0),
    {
        proof {
            use_type_invariant(self);
            lemma_parts_order(0, 0, self.centuries, self.nanoseconds);
        }
        self.centuries > 0 || (self.centuries == 0 && self.nanoseconds > 0)
    }

    /// Whether the span is other than the empty span.
    pub fn is_nonzero(&self) -> (r: bool)
        ensures
            r == (self@ != 0),
    {
        proof {
            use_type_invariant(self);
            lemma_parts_order(0, 0, self.centuries, self.nanoseconds);
        }
        self.centuries != 0 || self.nanoseconds != 0
    }

    /// Whether the span is shorter than `other`.
    pub fn is_less_than(&self, other: &Duration) -> (r: bool)
        ensures
            r == (self@ < other@),
    {
        proof {
            use_type_invariant(self);
            use_type_invariant(other);
            lemma_parts_order(
                self.centuries,
                self.nanoseconds,
                other.centuries,
                other.nanoseconds,
            );
        }
        self.centuries < other.centuries || (self.centuries == other.centuries && self.nanoseconds
            < other.nanoseconds)
    }

    /// The `q`-th part of a span that is not negative, rounded down.
    pub fn divided_by(&self, q: i64) -> (r: Duration)
        requires
            self@ >= 0,
            q > 0,
        ensures
            r@ == self@ / (q as int),
            0 <= r@ <= self@,
    {
        proof {
            use_type_invariant(self);
            lemma_parts_order(0, 0, self.centuries, self.nanoseconds);
        }
        let p = hifi_duration_div((self.centuries, self.nanoseconds), q);
        proof {
            lemma_div_bounds(self@, q as int);
            lemma_parts_range(p.0, p.1);
        }
        Duration { centuries: p.0, nanoseconds: p.1 }
    }
}

/// A quotient of a value that is not negative by a positive one lies between zero
/// and the value.
pub proof fn lemma_div_bounds(a: int, q: int)
    requires
        a >= 0,
        q > 0,
    ensures
        0 <= a / q <= a,
        (a / q) * q <= a < (a / q + 1) * q,
{
    vstd::arithmetic::div_mod::lemma_fundamental_div_mod(a, q);
    vstd::arithmetic::div_mod::lemma_mod_bound(a, q);
    assert(0 <= a / q <= a && (a / q) * q <= a < (a / q + 1) * q) by (nonlinear_arith)
        requires
            a >= 0,
            q > 0,
            a == q * (a / q) + a % q,
            0 <= a % q < q,
    {
    }
}

/// An instant on the TAI time axis.
#[derive(Clone, Copy, Debug, PartialEq, Eq, PartialOrd, Ord, Hash, Structural)]
pub struct Epoch {
    centuries: i16,
    nanoseconds: u64,
}

impl View for Epoch {
    type V = int;

    /// The nanoseconds since the reference epoch, 1900-01-01 at midnight TAI.
    closed spec fn view(&self) -> int {
        parts_value(self.centuries, self.nanoseconds)
    }
}

impl Epoch {
    /// Whether the parts are those of an epoch. It holds of every epoch that a
    /// program holds.
    #[verifier::type_invariant]
    pub closed spec fn well_formed(self) -> bool {
        epoch_parts(self.centuries, self.nanoseconds)
    }

    /// A well-formed epoch is within the range of epochs, and is the one epoch
    /// with its view.
    pub proof fn lemma_well_formed(self)
        requires
            self.well_formed(),
        ensures
            epoch_range(self@),
            epoch_parts(self.parts().0, self.parts().1),
            self == Epoch::at(self@),
    {
        lemma_parts_range(self.centuries, self.nanoseconds);
    }

    /// The parts of the epoch, as a spec function.
    pub closed spec fn parts(self) -> (i16, u64) {
        (self.centuries, self.nanoseconds)
    }

    /// The view is the value of the parts, and epochs with one view are one epoch.
    pub proof fn lemma_view(self, other: Epoch)
        requires
            epoch_parts(self.parts().0, self.parts().1),
            epoch_parts(other.parts().0, other.parts().1),
        ensures
            self@ == parts_value(self.parts().0, self.parts().1),
            self@ == other@ <==> self == other,
    {
        lemma_parts_order(self.centuries, self.nanoseconds, other.centuries, other.nanoseconds);
    }

    /// The epoch at the instant `t`, counted in nanoseconds since the reference epoch.
    pub closed spec fn at(t: int) -> Epoch {
        Epoch {
            centuries: (t / 3_155_760_000_000_000_000) as i16,
            nanoseconds: (t % 3_155_760_000_000_000_000) as u64,
        }
    }

    /// Within the range of epochs, `Epoch::at` gives the epoch with the view asked for.
    pub proof fn lemma_at(t: int)
        requires
            epoch_range(t),
        ensures
            Epoch::at(t)@ == t,
            Epoch::at(t).well_formed(),
            epoch_parts(Epoch::at(t).parts().0, Epoch::at(t).parts().1),
    {
    }

    /// The epoch with these parts; `None` unless they are the parts of an epoch.
    pub fn from_parts(centuries: i16, nanoseconds: u64) -> (r: Option<Epoch>)
        ensures
            r is Some <==> epoch_parts(centuries, nanoseconds),
            r matches Some(e) ==> e@ == parts_value(centuries, nanoseconds) && e.parts() == (
                centuries,
                nanoseconds,
            ) && e == Epoch::at(e@),
    {
        if nanoseconds < NANOSECONDS_PER_CENTURY && -16_383 <= centuries && centuries <= 16_383 {
            Some(Epoch { centuries, nanoseconds })
        } else {
            None
        }
    }

    /// The centuries and the nanoseconds into the century.
    pub fn to_parts(&self) -> (p: (i16, u64))
        ensures
            p == self.parts(),
            epoch_parts(p.0, p.1),
            parts_value(p.0, p.1) == self@,
            epoch_range(self@),
            *self == Epoch::at(self@),
    {
        proof {
            use_type_invariant(self);
            lemma_parts_range(self.centuries, self.nanoseconds);
        }
        (self.centuries, self.nanoseconds)
    }

    /// The epoch `nanoseconds` nanoseconds after the reference epoch.
    pub fn from_tai_nanoseconds(nanoseconds: i64) -> (r: Epoch)
        ensures
            r@ == nanoseconds,
            r == Epoch::at(nanoseconds as int),
    {
        let p = hifi_from_nanoseconds(nanoseconds);
        proof {
            lemma_parts_range(p.0, p.1);
        }
        Epoch { centuries: p.0, nanoseconds: p.1 }
    }

    /// Whether this epoch is strictly earlier than `other`.
    pub fn is_before(&self, other: &Epoch) -> (r: bool)
        ensures
            r == (self@ < other@),
    {
        proof {
            use_type_invariant(self);
            use_type_invariant(other);
            lemma_parts_order(
                self.centuries,
                self.nanoseconds,
                other.centuries,
                other.nanoseconds,
            );
        }
        self.centuries < other.centuries || (self.centuries == other.centuries && self.nanoseconds
            < other.nanoseconds)
    }

    /// Whether this epoch and `other` are the same instant.
    pub fn is_same(&self, other: &Epoch) -> (r: bool)
        ensures
            r == (self@ == other@),
            r == (*self == *other),
    {
        proof {
            use_type_invariant(self);
            use_type_invariant(other);
            lemma_parts_order(
                self.centuries,
                self.nanoseconds,
                other.centuries,
                other.nanoseconds,
            );
        }
        self.centuries == other.centuries && self.nanoseconds == other.nanoseconds
    }

    /// The span from `earlier` to this epoch; negative where `earlier` is the later one.
    pub fn since(&self, earlier: &Epoch) -> (r: Duration)
        ensures
            r@ == self@ - earlier@,
    {
        proof {
            use_type_invariant(self);
            use_type_invariant(earlier);
        }
        let p = hifi_epoch_sub(
            (self.centuries, self.nanoseconds),
            (earlier.centuries, earlier.nanoseconds),
        );
        proof {
            lemma_parts_range(self.centuries, self.nanoseconds);
            lemma_parts_range(earlier.centuries, earlier.nanoseconds);
            lemma_parts_range(p.0, p.1);
        }
        Duration { centuries: p.0, nanoseconds: p.1 }
    }

    /// The epoch `span` later; `None` where that is outside the supported centuries.
    pub fn checked_add(&self, span: &Duration) -> (r: Option<Epoch>)
        ensures
            r is Some <==> epoch_range(self@ + span@),
            r matches Some(e) ==> e@ == self@ + span@ && e == Epoch::at(self@ + span@),
    {
        proof {
            use_type_invariant(self);
            use_type_invariant(span);
            lemma_parts_range(self.centuries, self.nanoseconds);
        }
        let total: i32 = self.centuries as i32 + span.centuries as i32;
        if total < -16_384 || total > 16_383 {
            return None;
        }
        let p = hifi_epoch_add(
            (self.centuries, self.nanoseconds),
            (span.centuries, span.nanoseconds),
        );
        proof {
            lemma_parts_range(p.0, p.1);
        }
        if -16_383 <= p.0 && p.0 <= 16_383 {
            Some(Epoch { centuries: p.0, nanoseconds: p.1 })
        } else {
            None
        }
    }

    /// The epoch `span` earlier; `None` where that is outside the supported centuries.
    pub fn checked_sub(&self, span: &Duration) -> (r: Option<Epoch>)
        ensures
            r is Some <==> epoch_range(self@ - span@),
            r matches Some(e) ==> e@ == self@ - span@ && e == Epoch::at(self@ - span@),
    {
        proof {
            use_type_invariant(self);
            use_type_invariant(span);
            lemma_parts_range(self.centuries, self.nanoseconds);
        }
        let total: i32 = self.centuries as i32 - span.centuries as i32;
        if total < -16_383 || total > 16_384 {
            return None;
        }
        let p = hifi_epoch_sub_span(
            (self.centuries, self.nanoseconds),
            (span.centuries, span.nanoseconds),
        );
        proof {
            lemma_parts_range(p.0, p.1);
        }
        if -16_383 <= p.0 && p.0 <= 16_383 {
            Some(Epoch { centuries: p.0, nanoseconds: p.1 })
        } else {
            None
        }
    }
}

/// The number of epochs from `start` to `end`, both included, that lie a whole
/// number of `step`s after `start`.
pub open spec fn series_len(start: int, end: int, step: int) -> int {
    if end < start {
        0
    } else {
        (end - start) / step + 1
    }
}

/// Whether a series of `n` epochs can be held in memory: the sixteen bytes of each
/// are together less than the largest allocation, with room for two epochs more.
pub open spec fn series_fits(n: int) -> bool {
    16 * (n + 2) <= isize::MAX
}

/// The epochs `start`, `start + step`, `start + 2 step`, ... up to and including
/// `end`: an inclusive time series.
pub fn time_series(start: Epoch, end: Epoch, step: Duration) -> (r: Vec<Epoch>)
    requires
        step@ > 0,
        series_fits(series_len(start@, end@, step@)),
    ensures
        r@.len() == series_len(start@, end@, step@),
        forall|k: int| 0 <= k < r@.len() ==> #[trigger] r@[k] == Epoch::at(start@ + k * step@),
        forall|k: int| 0 <= k < r@.len() ==> (#[trigger] r@[k])@ == start@ + k * step@,
        forall|k: int| 0 <= k < r@.len() ==> start@ <= (#[trigger] r@[k])@ <= end@,
{
    proof {
        use_type_invariant(start);
        use_type_invariant(end);
        use_type_invariant(step);
        lemma_parts_range(start.centuries, start.nanoseconds);
        lemma_parts_range(end.centuries, end.nanoseconds);
    }
    let raw = hifi_time_series(
        (start.centuries, start.nanoseconds),
        (end.centuries, end.nanoseconds),
        (step.centuries, step.nanoseconds),
    );
    let mut out: Vec<Epoch> = Vec::with_capacity(raw.len());
    let mut i: usize = 0;
    while i < raw.len()
        invariant
            i <= raw@.len(),
            out@.len() == i,
            step@ > 0,
            epoch_range(start@),
            epoch_range(end@),
            raw@.len() == series_len(start@, end@, step@),
            forall|k: int|
                0 <= k < raw@.len() ==> (#[trigger] raw@[k]).1 < NANOSECONDS_PER_CENTURY
                    && parts_value(raw@[k].0, raw@[k].1) == start@ + k * step@,
            forall|k: int| 0 <= k < i ==> #[trigger] out@[k] == Epoch::at(start@ + k * step@),
            forall|k: int| 0 <= k < i ==> (#[trigger] out@[k])@ == start@ + k * step@,
            forall|k: int| 0 <= k < i ==> start@ <= (#[trigger] out@[k])@ <= end@,
        decreases raw@.len() - i,
    {
        let p = raw[i];
        proof {
            lemma_series_bounds(start@, end@, step@, i as int);
            lemma_parts_range(p.0, p.1);
        }
        out.push(Epoch { centuries: p.0, nanoseconds: p.1 });
        i = i + 1;
    }
    out
}

/// The `k`-th epoch of a series lies between its two ends.
pub proof fn lemma_series_bounds(start: int, end: int, step: int, k: int)
    requires
        step > 0,
        0 <= k < series_len(start, end, step),
    ensures
        start <= start + k * step <= end,
{
    lemma_div_bounds(end - start, step);
    assert(0 <= k * step <= ((end - start) / step) * step) by (nonlinear_arith)
        requires
            step > 0,
            0 <= k <= (end - start) / step,
    {
    }
}

/// `hifitime`'s product of an integer and a `Unit`. Where the nanoseconds fit in a
/// signed 64-bit integer and are not its least value, the product is built from
/// them without rounding: the parts are normalized and stand for `q` units.
#[verifier::external_body]
fn hifi_unit_times(q: i64, unit: Unit) -> (r: (i16, u64))
    requires
        -i64::MAX <= q * unit.nanos() <= i64::MAX,
    ensures
        r.1 < NANOSECONDS_PER_CENTURY,
        parts_value(r.0, r.1) == q * unit.nanos(),
{
    let u = match unit {
        Unit::Nanosecond => hifitime::Unit::Nanosecond,
        Unit::Microsecond => hifitime::Unit::Microsecond,
        Unit::Millisecond => hifitime::Unit::Millisecond,
        Unit::Second => hifitime::Unit::Second,
        Unit::Minute => hifitime::Unit::Minute,
        Unit::Hour => hifitime::Unit::Hour,
        Unit::Day => hifitime::Unit::Day,
        Unit::Century => hifitime::Unit::Century,
    };
    (q * u).to_parts()
}

/// `hifitime`'s `Duration::from_truncated_nanoseconds`: the normalized parts that
/// stand for a signed 64-bit count of nanoseconds.
#[verifier::external_body]
fn hifi_from_nanoseconds(nanoseconds: i64) -> (r: (i16, u64))
    ensures
        r.1 < NANOSECONDS_PER_CENTURY,
        parts_value(r.0, r.1) == nanoseconds,
{
    hifitime::Duration::from_truncated_nanoseconds(nanoseconds).to_parts()
}

/// `hifitime`'s difference of two epochs of the TAI scale. It subtracts centuries
/// and nanoseconds with a borrow; where the centuries do not leave 16 bits, as
/// between two epochs of this library, the result is exact and normalized.
#[verifier::external_body]
fn hifi_epoch_sub(a: (i16, u64), b: (i16, u64)) -> (r: (i16, u64))
    requires
        epoch_parts(a.0, a.1),
        epoch_parts(b.0, b.1),
    ensures
        r.1 < NANOSECONDS_PER_CENTURY,
        parts_value(r.0, r.1) == parts_value(a.0, a.1) - parts_value(b.0, b.1),
{
    let x = hifitime::Epoch::from_tai_duration(hifitime::Duration::from_parts(a.0, a.1));
    let y = hifitime::Epoch::from_tai_duration(hifitime::Duration::from_parts(b.0, b.1));
    (x - y).to_parts()
}

/// `hifitime`'s sum of an epoch of the TAI scale and a duration. It adds centuries
/// and nanoseconds with a carry; where the sum of the centuries is within those of
/// an epoch or one below, nothing saturates and the result is exact and normalized.
#[verifier::external_body]
fn hifi_epoch_add(a: (i16, u64), d: (i16, u64)) -> (r: (i16, u64))
    requires
        epoch_parts(a.0, a.1),
        duration_parts(d.0, d.1),
        -16_384 <= a.0 + d.0 <= 16_383,
    ensures
        r.1 < NANOSECONDS_PER_CENTURY,
        parts_value(r.0, r.1) == parts_value(a.0, a.1) + parts_value(d.0, d.1),
{
    let x = hifitime::Epoch::from_tai_duration(hifitime::Duration::from_parts(a.0, a.1));
    let y = hifitime::Duration::from_parts(d.0, d.1);
    (x + y).to_tai_duration().to_parts()
}

/// `hifitime`'s difference of an epoch of the TAI scale and a duration. It
/// subtracts centuries and nanoseconds with a borrow; where the difference of the
/// centuries is within those of an epoch or one above, nothing saturates and the
/// result is exact and normalized.
#[verifier::external_body]
fn hifi_epoch_sub_span(a: (i16, u64), d: (i16, u64)) -> (r: (i16, u64))
    requires
        epoch_parts(a.0, a.1),
        duration_parts(d.0, d.1),
        -16_383 <= a.0 - d.0 <= 16_384,
    ensures
        r.1 < NANOSECONDS_PER_CENTURY,
        parts_value(r.0, r.1) == parts_value(a.0, a.1) - parts_value(d.0, d.1),
{
    let x = hifitime::Epoch::from_tai_duration(hifitime::Duration::from_parts(a.0, a.1));
    let y = hifitime::Duration::from_parts(d.0, d.1);
    (x - y).to_tai_duration().to_parts()
}

/// `hifitime`'s quotient of a duration by an integer. It divides the total
/// nanoseconds, which it counts exactly for a duration that is not negative, and
/// rounds toward zero.
#[verifier::external_body]
fn hifi_duration_div(d: (i16, u64), q: i64) -> (r: (i16, u64))
    requires
        duration_parts(d.0, d.1),
        d.0 >= 0,
        q > 0,
    ensures
        r.1 < NANOSECONDS_PER_CENTURY,
        parts_value(r.0, r.1) == parts_value(d.0, d.1) / (q as int),
{
    (hifitime::Duration::from_parts(d.0, d.1) / q).to_parts()
}

/// `hifitime`'s `TimeSeries::inclusive`, collected. It yields `start` plus the
/// `k`-th multiple of `step` for `k` from zero, as long as that multiple is not
/// longer than the span from `start` to `end`; with a positive step, between two
/// epochs of this library, each of its sums and products is exact. A step that is
/// not positive would have it yield without end, and more epochs than fit in
/// memory cannot be collected.
#[verifier::external_body]
fn hifi_time_series(start: (i16, u64), end: (i16, u64), step: (i16, u64)) -> (r: Vec<(i16, u64)>)
    requires
        epoch_parts(start.0, start.1),
        epoch_parts(end.0, end.1),
        duration_parts(step.0, step.1),
        parts_value(step.0, step.1) > 0,
        series_fits(
            series_len(
                parts_value(start.0, start.1),
                parts_value(end.0, end.1),
                parts_value(step.0, step.1),
            ),
        ),
    ensures
        r@.len() == series_len(
            parts_value(start.0, start.1),
            parts_value(end.0, end.1),
            parts_value(step.0, step.1),
        ),
        forall|k: int|
            0 <= k < r@.len() ==> (#[trigger] r@[k]).1 < NANOSECONDS_PER_CENTURY && parts_value(
                r@[k].0,
                r@[k].1,
            ) == parts_value(start.0, start.1) + k * parts_value(step.0, step.1),
{
    let a = hifitime::Epoch::from_tai_duration(hifitime::Duration::from_parts(start.0, start.1));
    let b = hifitime::Epoch::from_tai_duration(hifitime::Duration::from_parts(end.0, end.1));
    let s = hifitime::Duration::from_parts(step.0, step.1);
    hifitime::TimeSeries::inclusive(a, b, s).map(|e| e.to_tai_duration().to_parts()).collect()
}

} // verus!
