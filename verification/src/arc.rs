//! Tracking arcs: the measurements of an orbit determination, in the order in
//! which they were taken.

use crate::time::{Duration, Epoch};
use vstd::prelude::*;

verus! {

/// One end of a range.
#[derive(Clone, Copy, Debug)]
pub enum Bound<T> {
    /// The range reaches this value.
    Included(T),
    /// The range reaches up to this value, and leaves it out.
    Excluded(T),
    /// The range has no end on this side.
    Unbounded,
}

/// Whether the instant or span `t`, in nanoseconds, is within the range from
/// `lower` to `upper`.
pub open spec fn in_range<T: View<V = int>>(lower: Bound<T>, upper: Bound<T>, t: int) -> bool {
    &&& match lower {
        Bound::Included(a) => a@ <= t,
        Bound::Excluded(a) => a@ < t,
        Bound::Unbounded => true,
    }
    &&& match upper {
        Bound::Included(b) => t <= b@,
        Bound::Excluded(b) => t < b@,
        Bound::Unbounded => true,
    }
}

/// A measurement, the device that took it and the epoch at which it was taken.
#[derive(Clone, Debug)]
pub struct Measurement<M> {
    pub device: String,
    pub epoch: Epoch,
    pub data: M,
}

/// The measurements of a set of tracking devices.
#[derive(Clone, Debug)]
pub struct TrackingArc<M: Copy> {
    /// The configuration from which the devices are rebuilt.
    pub device_cfg: String,
    /// The measurements, in the order in which they were taken.
    pub measurements: Vec<Measurement<M>>,
}

/// The time from the measurement at place `k` to the next, in nanoseconds.
pub open spec fn separation<M>(m: Seq<Measurement<M>>, k: int) -> int {
    m[k + 1].epoch@ - m[k].epoch@
}

/// Whether `r` is the least separation of measurements that follow each other,
/// where a separation of zero counts only between the first two.
pub open spec fn is_min_separation<M>(m: Seq<Measurement<M>>, r: int) -> bool {
    &&& m.len() >= 2
    &&& r <= separation(m, 0)
    &&& forall|k: int| 1 <= k < m.len() - 1 && #[trigger] separation(m, k) != 0 ==> r <= separation(m, k)
    &&& (r == separation(m, 0) || exists|k: int|
        1 <= k < m.len() - 1 && #[trigger] separation(m, k) != 0 && r == separation(m, k))
}

/// Whether `names` holds the name `name`.
pub open spec fn holds_name(names: Seq<String>, name: Seq<char>) -> bool {
    exists|j: int| 0 <= j < names.len() && (#[trigger] names[j])@ == name
}

/// Whether the device of some measurement of `m` has the name `name`.
pub open spec fn has_device<M>(m: Seq<Measurement<M>>, name: Seq<char>) -> bool {
    exists|i: int| 0 <= i < m.len() && (#[trigger] m[i]).device@ == name
}

/// Whether `names` are the devices of the measurements `m`, each named once.
pub open spec fn are_device_names<M>(names: Seq<String>, m: Seq<Measurement<M>>) -> bool {
    &&& forall|i: int, j: int|
        0 <= i < j < names.len() ==> (#[trigger] names[i])@ != (#[trigger] names[j])@
    &&& forall|j: int| 0 <= j < names.len() ==> has_device(m, (#[trigger] names[j])@)
    &&& forall|i: int| 0 <= i < m.len() ==> holds_name(names, (#[trigger] m[i]).device@)
}

fn epoch_in_range(lower: &Bound<Epoch>, upper: &Bound<Epoch>, epoch: &Epoch) -> (r: bool)
    ensures
        r == in_range(*lower, *upper, epoch@),
{
    let above = match lower {
        Bound::Included(a) => !epoch.is_before(a),
        Bound::Excluded(a) => a.is_before(epoch),
        Bound::Unbounded => true,
    };
    let below = match upper {
        Bound::Included(b) => !b.is_before(epoch),
        Bound::Excluded(b) => epoch.is_before(b),
        Bound::Unbounded => true,
    };
    above && below
}

fn span_in_range(lower: &Bound<Duration>, upper: &Bound<Duration>, span: &Duration) -> (r: bool)
    ensures
        r == in_range(*lower, *upper, span@),
{
    let above = match lower {
        Bound::Included(a) => !span.is_less_than(a),
        Bound::Excluded(a) => a.is_less_than(span),
        Bound::Unbounded => true,
    };
    let below = match upper {
        Bound::Included(b) => !b.is_less_than(span),
        Bound::Excluded(b) => span.is_less_than(b),
        Bound::Unbounded => true,
    };
    above && below
}

impl<M: Copy> TrackingArc<M> {
    /// The devices of which the arc holds a measurement, each named once, in the
    /// order in which they first appear.
    pub fn device_names(&self) -> (names: Vec<String>)
        ensures
            are_device_names(names@, self.measurements@),
    {
        let ghost m = self.measurements@;
        let mut names: Vec<String> = Vec::new();
        let mut i: usize = 0;
        while i < self.measurements.len()
            invariant
                i <= m.len(),
                m == self.measurements@,
                are_device_names(names@, m.subrange(0, i as int)),
            decreases m.len() - i,
        {
            let device = &self.measurements[i].device;
            let ghost before = names@;
            let mut known = false;
            let mut j: usize = 0;
            while j < names.len()
                invariant
                    j <= names@.len(),
                    names@ == before,
                    known == exists|k: int| 0 <= k < j && (#[trigger] names@[k])@ == device@,
                decreases names@.len() - j,
            {
                if names[j] == *device {
                    known = true;
                }
                j = j + 1;
            }
            if !known {
                names.push(device.clone());
            }
            proof {
                assert(names@.subrange(0, before.len() as int) == before);
                lemma_name_added(m, i as int, before, names@);
            }
            i = i + 1;
        }
        assert(m.subrange(0, i as int) == m);
        names
    }

    /// The least time between two measurements that follow each other, where
    /// measurements at one epoch count only if they are the first two; `None` of an
    /// arc with fewer than two measurements.
    pub fn min_duration_sep(&self) -> (r: Option<Duration>)
        ensures
            r is Some <==> self.measurements@.len() >= 2,
            r matches Some(d) ==> is_min_separation(self.measurements@, d@),
    {
        let n = self.measurements.len();
        if n < 2 {
            return None;
        }
        let ghost m = self.measurements@;
        let mut min_interval = self.measurements[1].epoch.since(&self.measurements[0].epoch);
        let mut k: usize = 1;
        while k < n - 1
            invariant
                1 <= k <= n - 1,
                n == m.len(),
                m == self.measurements@,
                is_min_separation(m.subrange(0, k as int + 1), min_interval@),
            decreases n - k,
        {
            let interval = self.measurements[k + 1].epoch.since(&self.measurements[k].epoch);
            let ghost before = min_interval@;
            if interval.is_nonzero() && interval.is_less_than(&min_interval) {
                min_interval = interval;
            }
            proof {
                lemma_separation_step(m, k as int, before, min_interval@);
            }
            k = k + 1;
        }
        assert(m.subrange(0, k as int + 1) == m);
        Some(min_interval)
    }

    /// The arc with the measurements taken within the range from `lower` to `upper`.
    pub fn filter_by_epoch(&self, lower: Bound<Epoch>, upper: Bound<Epoch>) -> (r: Self)
        ensures
            r.device_cfg == self.device_cfg,
            r.measurements@ == self.measurements@.filter(
                |x: Measurement<M>| in_range(lower, upper, x.epoch@),
            ),
    {
        let ghost m = self.measurements@;
        let ghost keep = |x: Measurement<M>| in_range(lower, upper, x.epoch@);
        let mut measurements: Vec<Measurement<M>> = Vec::new();
        proof {
            lemma_filter_none(m, keep);
        }
        let mut i: usize = 0;
        while i < self.measurements.len()
            invariant
                i <= m.len(),
                m == self.measurements@,
                keep == |x: Measurement<M>| in_range(lower, upper, x.epoch@),
                measurements@ == m.subrange(0, i as int).filter(keep),
            decreases m.len() - i,
        {
            let one = &self.measurements[i];
            proof {
                lemma_filter_step(m, i as int, keep);
            }
            if epoch_in_range(&lower, &upper, &one.epoch) {
                measurements.push(
                    Measurement { device: one.device.clone(), epoch: one.epoch, data: one.data },
                );
            }
            i = i + 1;
        }
        assert(m.subrange(0, i as int) == m);
        TrackingArc { device_cfg: self.device_cfg.clone(), measurements }
    }

    /// The arc with the measurements whose time since the first measurement is
    /// within the range from `lower` to `upper`.
    pub fn filter_by_offset(&self, lower: Bound<Duration>, upper: Bound<Duration>) -> (r: Self)
        ensures
            r.device_cfg == self.device_cfg,
            self.measurements@.len() == 0 ==> r.measurements@.len() == 0,
            self.measurements@.len() > 0 ==> r.measurements@ == self.measurements@.filter(
                |x: Measurement<M>|
                    in_range(lower, upper, x.epoch@ - self.measurements@[0].epoch@),
            ),
    {
        if self.measurements.len() == 0 {
            return TrackingArc { device_cfg: self.device_cfg.clone(), measurements: Vec::new() };
        }
        let ghost m = self.measurements@;
        let reference = self.measurements[0].epoch;
        let ghost keep = |x: Measurement<M>| in_range(lower, upper, x.epoch@ - m[0].epoch@);
        let mut measurements: Vec<Measurement<M>> = Vec::new();
        proof {
            lemma_filter_none(m, keep);
        }
        let mut i: usize = 0;
        while i < self.measurements.len()
            invariant
                i <= m.len(),
                m.len() > 0,
                m == self.measurements@,
                reference == m[0].epoch,
                keep == |x: Measurement<M>| in_range(lower, upper, x.epoch@ - m[0].epoch@),
                measurements@ == m.subrange(0, i as int).filter(keep),
            decreases m.len() - i,
        {
            let one = &self.measurements[i];
            proof {
                lemma_filter_step(m, i as int, keep);
            }
            let offset = one.epoch.since(&reference);
            if span_in_range(&lower, &upper, &offset) {
                measurements.push(
                    Measurement { device: one.device.clone(), epoch: one.epoch, data: one.data },
                );
            }
            i = i + 1;
        }
        assert(m.subrange(0, i as int) == m);
        TrackingArc { device_cfg: self.device_cfg.clone(), measurements }
    }
}

/// Of nothing, a filter keeps nothing.
proof fn lemma_filter_none<A>(s: Seq<A>, keep: spec_fn(A) -> bool)
    ensures
        s.subrange(0, 0).filter(keep) == Seq::<A>::empty(),
{
    reveal(Seq::filter);
}

/// A filter keeps of one element more what it kept before, and the element where
/// it is one to keep.
proof fn lemma_filter_step<A>(s: Seq<A>, i: int, keep: spec_fn(A) -> bool)
    requires
        0 <= i < s.len(),
    ensures
        s.subrange(0, i + 1).filter(keep) == if keep(s[i]) {
            s.subrange(0, i).filter(keep).push(s[i])
        } else {
            s.subrange(0, i).filter(keep)
        },
{
    reveal(Seq::filter);
    assert(s.subrange(0, i + 1).drop_last() == s.subrange(0, i));
}

proof fn lemma_name_added<M>(
    m: Seq<Measurement<M>>,
    i: int,
    before: Seq<String>,
    after: Seq<String>,
)
    requires
        0 <= i < m.len(),
        are_device_names(before, m.subrange(0, i)),
        holds_name(before, m[i].device@) ==> after == before,
        !holds_name(before, m[i].device@) ==> after.len() == before.len() + 1 && after.subrange(
            0,
            before.len() as int,
        ) == before && after.last()@ == m[i].device@,
    ensures
        are_device_names(after, m.subrange(0, i + 1)),
{
    let prefix = m.subrange(0, i);
    let longer = m.subrange(0, i + 1);
    assert forall|j: int| 0 <= j < before.len() implies #[trigger] after[j] == before[j] by {
        if !holds_name(before, m[i].device@) {
            assert(after.subrange(0, before.len() as int)[j] == after[j]);
        }
    }
    assert forall|j: int| 0 <= j < after.len() implies has_device(longer, (#[trigger] after[j])@) by {
        if j < before.len() {
            assert(has_device(prefix, before[j]@));
            let a = choose|a: int| 0 <= a < prefix.len() && (#[trigger] prefix[a]).device@ == before[j]@;
            assert(longer[a] == prefix[a]);
        } else {
            assert(longer[i] == m[i]);
        }
    }
    assert forall|a: int| 0 <= a < longer.len() implies holds_name(after, (#[trigger] longer[a]).device@) by {
        if a < i {
            assert(longer[a] == prefix[a]);
            assert(holds_name(before, prefix[a].device@));
            let j = choose|j: int| 0 <= j < before.len() && (#[trigger] before[j])@ == prefix[a].device@;
            assert(after[j] == before[j]);
        } else {
            if holds_name(before, m[i].device@) {
            } else {
                assert(after[after.len() - 1]@ == m[i].device@);
            }
        }
    }
    assert forall|a: int, b: int| 0 <= a < b < after.len() implies (#[trigger] after[a])@ != (#[trigger] after[b])@ by {
        if b < before.len() {
            assert(after[a] == before[a] && after[b] == before[b]);
        } else {
            assert(after[a] == before[a]);
            if after[a]@ == after[b]@ {
                assert(holds_name(before, m[i].device@));
            }
        }
    }
}

proof fn lemma_separation_step<M>(m: Seq<Measurement<M>>, k: int, before: int, after: int)
    requires
        1 <= k < m.len() - 1,
        is_min_separation(m.subrange(0, k + 1), before),
        after == if separation(m, k) != 0 && separation(m, k) < before {
            separation(m, k)
        } else {
            before
        },
    ensures
        is_min_separation(m.subrange(0, k + 2), after),
{
    let shorter = m.subrange(0, k + 1);
    let longer = m.subrange(0, k + 2);
    assert forall|j: int| 0 <= j < k + 1 implies separation(longer, j) == separation(m, j) by {
    }
    assert forall|j: int| 0 <= j < k implies separation(shorter, j) == separation(m, j) by {
    }
    assert(separation(shorter, 0) == separation(longer, 0));
    assert forall|j: int| 1 <= j < longer.len() - 1 && #[trigger] separation(longer, j) != 0 implies after
        <= separation(longer, j) by {
        if j < k {
            assert(separation(shorter, j) == separation(longer, j));
        }
    }
    if after == before {
        if before != separation(shorter, 0) {
            let j = choose|j: int|
                1 <= j < shorter.len() - 1 && #[trigger] separation(shorter, j) != 0 && before
                    == separation(shorter, j);
            assert(separation(longer, j) == separation(shorter, j));
        }
    } else {
        assert(separation(longer, k) == after);
    }
}

} // verus!
