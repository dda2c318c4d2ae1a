//! A store of time-tagged samples, kept in the order of their epochs.

use crate::errors::{
    is_creation_error, is_event_not_found, no_interpolation_data, NyxError, TrajError,
};
use crate::params::StateParameter;
use crate::time::{
    epoch_parts, epoch_range, lemma_div_bounds, lemma_parts_order, series_fits, series_len,
    time_series, Duration, Epoch, Unit,
};
use vstd::prelude::*;

verus! {

/// The number of samples from which a state between two samples is rebuilt.
pub const INTERPOLATION_SAMPLES: usize = 6;

/// A state and the epoch it belongs to.
#[derive(Clone, Copy, Debug)]
pub struct Sample<S> {
    pub epoch: Epoch,
    pub state: S,
}

/// What a state must offer to be stored in a trajectory and rebuilt between samples.
pub trait InterpState: Copy {
    /// The parameters that are rebuilt between samples, in their order.
    fn params() -> Vec<StateParameter>;

    /// The epoch of the state.
    fn epoch(&self) -> Epoch;

    /// The state at `epoch`, rebuilt from the samples of `window`, which surround
    /// `epoch` in a trajectory; `self` is the sample of the window that follows `epoch`.
    fn interpolate(&self, epoch: Epoch, window: &Vec<Sample<Self>>) -> Result<Self, NyxError>;
}

/// Whether the epochs of `s` strictly increase: the order of a finalized trajectory.
pub open spec fn strictly_increasing<S>(s: Seq<Sample<S>>) -> bool {
    forall|i: int, j: int| 0 <= i < j < s.len() ==> (#[trigger] s[i]).epoch@ < (#[trigger] s[j]).epoch@
}

/// Whether `s[i]` is the first sample of `s` at its epoch.
pub open spec fn first_at<S>(s: Seq<Sample<S>>, i: int) -> bool {
    &&& 0 <= i < s.len()
    &&& forall|k: int| 0 <= k < i ==> (#[trigger] s[k]).epoch@ != s[i].epoch@
}

/// Whether `s` holds `x`, and holds no sample of the same epoch before it.
pub open spec fn holds_first<S>(s: Seq<Sample<S>>, x: Sample<S>) -> bool {
    exists|i: int| first_at(s, i) && #[trigger] s[i] == x
}

/// Whether `r` holds a sample at the instant `t`.
pub open spec fn holds_epoch<S>(r: Seq<Sample<S>>, t: int) -> bool {
    exists|j: int| 0 <= j < r.len() && (#[trigger] r[j]).epoch@ == t
}

/// Whether `r` is what finalizing `s` gives: the samples of `s` in the order of
/// their epochs, with one sample for each epoch, the first that `s` holds at it.
pub open spec fn is_finalization_of<S>(r: Seq<Sample<S>>, s: Seq<Sample<S>>) -> bool {
    &&& strictly_increasing(r)
    &&& forall|j: int| 0 <= j < r.len() ==> holds_first(s, #[trigger] r[j])
    &&& forall|i: int| 0 <= i < s.len() ==> holds_epoch(r, (#[trigger] s[i]).epoch@)
}

/// Where the window of samples around the place `idx` begins, in a trajectory of
/// `len` samples: half a window before `idx`, or earlier where the window would
/// otherwise run past the last sample.
pub open spec fn window_start(idx: int, len: int) -> int {
    let half = INTERPOLATION_SAMPLES as int / 2;
    let first = if idx >= half { idx - half } else { 0 };
    if first + INTERPOLATION_SAMPLES >= len {
        if len >= INTERPOLATION_SAMPLES { len - INTERPOLATION_SAMPLES } else { 0 }
    } else {
        first
    }
}

/// Where the window of samples around the place `idx` ends, in a trajectory of
/// `len` samples: a whole window after its beginning, or at the last sample.
pub open spec fn window_end(idx: int, len: int) -> int {
    let half = INTERPOLATION_SAMPLES as int / 2;
    let first = if idx >= half { idx - half } else { 0 };
    if first + INTERPOLATION_SAMPLES >= len { len } else { first + INTERPOLATION_SAMPLES }
}

/// Whether `epoch` lies outside the span of the samples `s`, or `s` is empty.
pub open spec fn out_of_span<S>(s: Seq<Sample<S>>, epoch: Epoch) -> bool {
    s.len() == 0 || epoch@ < s.first().epoch@ || s.last().epoch@ < epoch@
}

/// Whether `r` is an answer of the finalized samples `s` to a query at `epoch`:
/// the error of missing data outside their span, the stored state at the epoch of
/// a sample, and between two samples whatever the state that follows `epoch`
/// makes of the window around it.
pub open spec fn at_result<S: InterpState>(
    s: Seq<Sample<S>>,
    epoch: Epoch,
    r: Result<S, NyxError>,
) -> bool {
    if out_of_span(s, epoch) {
        r == Err::<S, NyxError>(no_interpolation_data(epoch))
    } else if holds_epoch(s, epoch@) {
        exists|i: int| 0 <= i < s.len() && (#[trigger] s[i]).epoch@ == epoch@ && r == Ok::<S, NyxError>(s[i].state)
    } else {
        exists|idx: int, window: Vec<Sample<S>>|
            {
                &&& 0 < idx < s.len()
                &&& s[idx - 1].epoch@ < epoch@ < s[idx].epoch@
                &&& window@ == s.subrange(window_start(idx, s.len() as int), window_end(idx, s.len() as int))
                &&& #[trigger] call_ensures(S::interpolate, (&s[idx].state, epoch, &window), r)
            }
    }
}

/// The instant half way from `a` to `b`, rounded down to the nanosecond.
pub open spec fn midpoint(a: int, b: int) -> int {
    a + (b - a) / 2
}

/// The instant half way from the sample at place `i` to the next one.
pub open spec fn mid_at<S>(s: Seq<Sample<S>>, i: int) -> int {
    midpoint(s[i].epoch@, s[i + 1].epoch@)
}

/// Whether `r` holds the sample `x`.
pub open spec fn holds_sample<S>(r: Seq<Sample<S>>, x: Sample<S>) -> bool {
    exists|k: int| 0 <= k < r.len() && #[trigger] r[k] == x
}

/// Whether `x` is an answer of the finalized samples `s` to a query half way
/// between two of them that follow each other.
pub open spec fn is_midpoint_sample<S: InterpState>(s: Seq<Sample<S>>, x: Sample<S>) -> bool {
    exists|i: int|
        {
            &&& 0 <= i < s.len() - 1
            &&& s[i].epoch@ < #[trigger] mid_at(s, i)
            &&& x.epoch == Epoch::at(mid_at(s, i))
            &&& at_result(s, x.epoch, Ok::<S, NyxError>(x.state))
        }
}

/// Whether a query half way from the sample at place `i` to the next may fail.
pub open spec fn midpoint_fails<S: InterpState>(s: Seq<Sample<S>>, i: int) -> bool {
    exists|error: NyxError| #[trigger] at_result(s, Epoch::at(mid_at(s, i)), Err::<S, NyxError>(error))
}

/// Whether `r` is a resampling of the finalized samples `s`: their samples, and
/// between each two that follow each other the state half way, wherever that
/// instant is a later one than the first of the two and the query there succeeds.
pub open spec fn is_resampling_of<S: InterpState>(r: Seq<Sample<S>>, s: Seq<Sample<S>>) -> bool {
    &&& strictly_increasing(r)
    &&& forall|i: int| 0 <= i < s.len() ==> holds_sample(r, #[trigger] s[i])
    &&& forall|k: int|
        0 <= k < r.len() ==> holds_sample(s, #[trigger] r[k]) || is_midpoint_sample(s, r[k])
    &&& forall|i: int|
        0 <= i < s.len() - 1 && s[i].epoch@ < #[trigger] mid_at(s, i) ==> holds_epoch(
            r,
            mid_at(s, i),
        ) || midpoint_fails(s, i)
}

/// Whether `t` holds, place by place, the samples of `pre` with their states
/// changed by `convert`.
pub open spec fn is_conversion_of<S, F: Fn(&S) -> S>(
    t: Seq<Sample<S>>,
    pre: Seq<Sample<S>>,
    convert: F,
) -> bool {
    &&& t.len() == pre.len()
    &&& forall|k: int|
        0 <= k < t.len() ==> (#[trigger] t[k]).epoch == pre[k].epoch && call_ensures(
            convert,
            (&pre[k].state,),
            t[k].state,
        )
}

/// The gap between two trajectories: where the one that begins earlier ends
/// before the other begins, the epoch at which it ends and the time from there
/// to the beginning of the other, in nanoseconds.
pub open spec fn gap_between<S>(a: Seq<Sample<S>>, b: Seq<Sample<S>>) -> Option<(Epoch, int)> {
    if a.len() == 0 || b.len() == 0 {
        None
    } else if a.first().epoch@ < b.first().epoch@ {
        if a.last().epoch@ < b.first().epoch@ {
            Some((a.last().epoch, b.first().epoch@ - a.last().epoch@))
        } else {
            None
        }
    } else {
        if b.last().epoch@ < a.first().epoch@ {
            Some((b.last().epoch, a.first().epoch@ - b.last().epoch@))
        } else {
            None
        }
    }
}

/// Whether `b` is the partition of the span from `first` to `last` in which an
/// event is searched: brackets of one hundredth of the span, rounded down to the
/// nanosecond, one after the other from `first` on as long as they end by `last`;
/// none where the span is shorter than a hundred nanoseconds.
pub open spec fn is_partition(b: Seq<(Epoch, Epoch)>, first: int, last: int) -> bool {
    let width = (last - first) / 100;
    if width == 0 {
        b.len() == 0
    } else {
        &&& b.len() == (last - first) / width
        &&& forall|k: int|
            0 <= k < b.len() ==> #[trigger] b[k] == (
                Epoch::at(first + k * width),
                Epoch::at(first + (k + 1) * width),
            )
    }
}

/// The earliest epoch of the window around an extremum at the instant `t`, in a
/// trajectory that begins at `first`: a millisecond before `t`, but not before `first`.
pub open spec fn window_low(first: Epoch, t: int) -> Epoch {
    if t - 1_000_000 < first@ {
        first
    } else {
        Epoch::at(t - 1_000_000)
    }
}

/// The latest epoch of the window around an extremum at the instant `t`, in a
/// trajectory that ends at `last`: a millisecond after `t`, but not after `last`.
pub open spec fn window_high(last: Epoch, t: int) -> Epoch {
    if t + 1_000_000 > last@ {
        last
    } else {
        Epoch::at(t + 1_000_000)
    }
}

/// A sort key: the parts of an epoch, then the place of its sample.
pub open spec fn key_le(a: (i16, u64, usize), b: (i16, u64, usize)) -> bool {
    a.0 < b.0 || (a.0 == b.0 && (a.1 < b.1 || (a.1 == b.1 && a.2 <= b.2)))
}

/// std's `sort_unstable` on a vector of integer triples, which std orders one
/// component after the other: afterwards the vector holds what it held before,
/// in ascending order.
#[verifier::external_body]
fn sort_keys(keys: &mut Vec<(i16, u64, usize)>)
    ensures
        final(keys)@.to_multiset() == old(keys)@.to_multiset(),
        forall|i: int, j: int|
            0 <= i < j < final(keys)@.len() ==> key_le(
                #[trigger] final(keys)@[i],
                #[trigger] final(keys)@[j],
            ),
{
    keys.sort_unstable();
}

/// An ordered, deduplicated history of states.
pub struct Traj<S: InterpState> {
    name: Option<String>,
    samples: Vec<Sample<S>>,
    dirty: bool,
}

impl<S: InterpState> View for Traj<S> {
    type V = Seq<Sample<S>>;

    /// The samples, in the order in which the trajectory holds them.
    closed spec fn view(&self) -> Seq<Sample<S>> {
        self.samples@
    }
}

impl<S: InterpState> Traj<S> {
    #[verifier::type_invariant]
    spec fn well_formed(self) -> bool {
        !self.dirty ==> strictly_increasing(self.samples@)
    }

    /// Whether the samples are in the order of their epochs, one for each epoch:
    /// so it is after `finalize`, until the next `append`.
    pub closed spec fn is_finalized(&self) -> bool {
        !self.dirty && strictly_increasing(self.samples@)
    }

    /// The name of the trajectory, as a spec function.
    pub closed spec fn spec_name(&self) -> Option<String> {
        self.name
    }

    /// The epochs of a finalized trajectory strictly increase.
    pub proof fn lemma_finalized(&self)
        requires
            self.is_finalized(),
        ensures
            strictly_increasing(self@),
    {
    }

    /// An empty trajectory without a name.
    pub fn new() -> (r: Self)
        ensures
            r@.len() == 0,
            r.is_finalized(),
            r.spec_name() is None,
    {
        Traj { name: None, samples: Vec::new(), dirty: false }
    }

    /// The number of samples.
    pub fn len(&self) -> (r: usize)
        ensures
            r == self@.len(),
    {
        self.samples.len()
    }

    /// Whether `finalize` has run since the last `append`.
    pub fn finalized(&self) -> (r: bool)
        ensures
            r == self.is_finalized(),
    {
        proof {
            use_type_invariant(self);
        }
        !self.dirty
    }

    /// Adds `state` at `epoch`, behind the samples that the trajectory holds.
    pub fn push(&mut self, epoch: Epoch, state: S)
        ensures
            final(self)@ == old(self)@.push(Sample { epoch, state }),
            !final(self).is_finalized(),
            final(self).spec_name() == old(self).spec_name(),
    {
        self.dirty = true;
        let mut samples: Vec<Sample<S>> = Vec::new();
        std::mem::swap(&mut samples, &mut self.samples);
        samples.push(Sample { epoch, state });
        self.samples = samples;
    }

    /// Whether the trajectory holds no sample.
    pub fn is_empty(&self) -> (r: bool)
        ensures
            r == (self@.len() == 0),
    {
        self.samples.len() == 0
    }

    /// The name of the trajectory.
    pub fn name(&self) -> (r: &Option<String>)
        ensures
            *r == self.spec_name(),
    {
        &self.name
    }

    /// Names the trajectory.
    pub fn set_name(&mut self, name: Option<String>)
        ensures
            final(self).spec_name() == name,
            final(self)@ == old(self)@,
            final(self).is_finalized() == old(self).is_finalized(),
    {
        proof {
            use_type_invariant(&*self);
        }
        self.name = name;
    }

    /// The sample at place `i`.
    pub fn get(&self, i: usize) -> (r: &Sample<S>)
        requires
            i < self@.len(),
        ensures
            *r == self@[i as int],
    {
        &self.samples[i]
    }

    /// Adds `state` at the epoch that it reports, behind the samples that the
    /// trajectory holds.
    pub fn append(&mut self, state: S)
        ensures
            exists|epoch: Epoch|
                #[trigger] call_ensures(S::epoch, (&state,), epoch) && final(self)@ == old(
                    self,
                )@.push(Sample { epoch, state }),
            !final(self).is_finalized(),
            final(self).spec_name() == old(self).spec_name(),
    {
        let epoch = state.epoch();
        self.push(epoch, state);
    }

    /// The state of the first sample: in a finalized trajectory, the earliest.
    pub fn first(&self) -> (r: &S)
        requires
            self@.len() > 0,
        ensures
            *r == self@.first().state,
    {
        &self.samples[0].state
    }

    /// The state of the last sample: in a finalized trajectory, the latest.
    pub fn last(&self) -> (r: &S)
        requires
            self@.len() > 0,
        ensures
            *r == self@.last().state,
    {
        &self.samples[self.samples.len() - 1].state
    }

    /// The epoch of the first sample.
    pub fn first_epoch(&self) -> (r: Epoch)
        requires
            self@.len() > 0,
        ensures
            r == self@.first().epoch,
    {
        self.samples[0].epoch
    }

    /// The epoch of the last sample.
    pub fn last_epoch(&self) -> (r: Epoch)
        requires
            self@.len() > 0,
        ensures
            r == self@.last().epoch,
    {
        self.samples[self.samples.len() - 1].epoch
    }

    /// The state at `epoch`: that of the sample at `epoch` where there is one, and
    /// between two samples what the state that follows `epoch` rebuilds from the
    /// samples around it.
    pub fn at(&self, epoch: Epoch) -> (r: Result<S, NyxError>)
        requires
            self.is_finalized(),
        ensures
            at_result(self@, epoch, r),
            out_of_span(self@, epoch) ==> r == Err::<S, NyxError>(no_interpolation_data(epoch)),
            forall|i: int|
                0 <= i < self@.len() && (#[trigger] self@[i]).epoch@ == epoch@ ==> r == Ok::<
                    S,
                    NyxError,
                >(self@[i].state),
    {
        let n = self.samples.len();
        if n == 0 {
            return Err(NyxError::Trajectory(TrajError::NoInterpolationData(epoch)));
        }
        if epoch.is_before(&self.samples[0].epoch) || self.samples[n - 1].epoch.is_before(&epoch) {
            return Err(NyxError::Trajectory(TrajError::NoInterpolationData(epoch)));
        }
        let ghost s = self.samples@;
        let idx = self.place_of(&epoch);
        if self.samples[idx].epoch.is_same(&epoch) {
            assert(holds_epoch(s, epoch@));
            assert forall|i: int| 0 <= i < s.len() && (#[trigger] s[i]).epoch@ == epoch@ implies i
                == idx by {
                if i < idx {
                    assert(s[i].epoch@ < s[idx as int].epoch@);
                } else if i > idx {
                    assert(s[idx as int].epoch@ < s[i].epoch@);
                }
            }
            return Ok(self.samples[idx].state);
        }
        // The epoch lies strictly between the samples at `idx - 1` and at `idx`.
        assert(idx > 0);
        assert(!holds_epoch(s, epoch@)) by {
            if holds_epoch(s, epoch@) {
                let j = choose|j: int| 0 <= j < s.len() && (#[trigger] s[j]).epoch@ == epoch@;
                if j < idx {
                    assert(s[j].epoch@ < epoch@);
                } else if j > idx {
                    assert(s[idx as int].epoch@ < s[j].epoch@);
                }
            }
        }
        let half = INTERPOLATION_SAMPLES / 2;
        let mut first_idx = if idx >= half { idx - half } else { 0 };
        let last_idx = if n - first_idx <= INTERPOLATION_SAMPLES { n } else { first_idx + INTERPOLATION_SAMPLES };
        if last_idx == n {
            first_idx = if n >= INTERPOLATION_SAMPLES { n - INTERPOLATION_SAMPLES } else { 0 };
        }
        assert(first_idx == window_start(idx as int, n as int));
        assert(last_idx == window_end(idx as int, n as int));
        let mut window: Vec<Sample<S>> = Vec::with_capacity(last_idx - first_idx);
        let mut i = first_idx;
        while i < last_idx
            invariant
                first_idx <= i <= last_idx <= n,
                n == s.len(),
                s == self.samples@,
                window@ == s.subrange(first_idx as int, i as int),
            decreases last_idx - i,
        {
            window.push(self.samples[i]);
            i = i + 1;
        }
        let r = self.samples[idx].state.interpolate(epoch, &window);
        r
    }

    /// The place of the first sample that is not earlier than `epoch`.
    fn place_of(&self, epoch: &Epoch) -> (idx: usize)
        requires
            self.is_finalized(),
            self@.len() > 0,
            epoch@ <= self@.last().epoch@,
        ensures
            idx < self@.len(),
            epoch@ <= self@[idx as int].epoch@,
            forall|k: int| 0 <= k < idx ==> (#[trigger] self@[k]).epoch@ < epoch@,
    {
        let ghost s = self.samples@;
        let mut lo: usize = 0;
        let mut hi: usize = self.samples.len() - 1;
        while lo < hi
            invariant
                lo <= hi < s.len(),
                s == self.samples@,
                strictly_increasing(s),
                epoch@ <= s[hi as int].epoch@,
                forall|k: int| 0 <= k < lo ==> (#[trigger] s[k]).epoch@ < epoch@,
            decreases hi - lo,
        {
            let mid = lo + (hi - lo) / 2;
            if self.samples[mid].epoch.is_before(epoch) {
                assert forall|k: int| 0 <= k < mid + 1 implies (#[trigger] s[k]).epoch@ < epoch@ by {
                    if k < mid {
                        assert(s[k].epoch@ < s[mid as int].epoch@);
                    }
                }
                lo = mid + 1;
            } else {
                hi = mid;
            }
        }
        lo
    }

    /// The time from the first sample to the last.
    pub fn duration(&self) -> (r: Duration)
        requires
            self@.len() > 0,
        ensures
            r@ == self@.last().epoch@ - self@.first().epoch@,
    {
        self.samples[self.samples.len() - 1].epoch.since(&self.samples[0].epoch)
    }

    /// A trajectory of these samples, in the order given; it is not finalized.
    pub fn from_samples(samples: Vec<Sample<S>>) -> (r: Self)
        ensures
            r@ == samples@,
            !r.is_finalized(),
            r.spec_name() is None,
    {
        Traj { name: None, samples, dirty: true }
    }

    /// The samples, in the order in which the trajectory holds them.
    pub fn samples(&self) -> (r: &Vec<Sample<S>>)
        ensures
            r@ == self@,
    {
        &self.samples
    }

    /// The samples of this trajectory and of `other`, finalized together; of two
    /// samples at one epoch, this trajectory's is kept. Where one trajectory ends
    /// before the other begins, a query in the gap between them is answered from
    /// the samples on both sides of it.
    pub fn add(self, other: &Traj<S>) -> (r: Traj<S>)
        ensures
            r.is_finalized(),
            is_finalization_of(r@, self@ + other@),
            r.spec_name() == self.spec_name(),
    {
        let mut me = self;
        me.add_assign(other);
        me
    }

    /// Takes the samples of `other` into this trajectory and finalizes it; of two
    /// samples at one epoch, the one that this trajectory held is kept.
    pub fn add_assign(&mut self, other: &Traj<S>)
        ensures
            final(self).is_finalized(),
            is_finalization_of(final(self)@, old(self)@ + other@),
            final(self).spec_name() == old(self).spec_name(),
    {
        let ghost before = self@;
        let mut i: usize = 0;
        while i < other.samples.len()
            invariant
                i <= other.samples@.len(),
                self@ == before + other.samples@.subrange(0, i as int),
                self.spec_name() == old(self).spec_name(),
            decreases other.samples@.len() - i,
        {
            let sample = other.samples[i];
            self.push(sample.epoch, sample.state);
            i = i + 1;
            assert(other.samples@.subrange(0, i as int) == other.samples@.subrange(
                0,
                i as int - 1,
            ).push(sample));
        }
        assert(other.samples@.subrange(0, i as int) == other.samples@);
        self.finalize();
    }

    /// The gap that a merge of this trajectory with `other` leaves without data.
    pub fn gap_with(&self, other: &Traj<S>) -> (r: Option<(Epoch, Duration)>)
        ensures
            r is Some <==> gap_between(self@, other@) is Some,
            r matches Some((start, span)) ==> gap_between(self@, other@) == Some((start, span@)),
    {
        let n = self.samples.len();
        let m = other.samples.len();
        if n == 0 || m == 0 {
            return None;
        }
        if self.samples[0].epoch.is_before(&other.samples[0].epoch) {
            let end = self.samples[n - 1].epoch;
            let begin = other.samples[0].epoch;
            if end.is_before(&begin) {
                Some((end, begin.since(&end)))
            } else {
                None
            }
        } else {
            let end = other.samples[m - 1].epoch;
            let begin = self.samples[0].epoch;
            if end.is_before(&begin) {
                Some((end, begin.since(&end)))
            } else {
                None
            }
        }
    }

    /// The samples of the trajectory with, between each two that follow each
    /// other, the state half way from the one to the other.
    pub fn resampled(&self) -> (r: Vec<Sample<S>>)
        requires
            self.is_finalized(),
        ensures
            is_resampling_of(r@, self@),
    {
        let n = self.samples.len();
        let ghost s = self.samples@;
        let mut out: Vec<Sample<S>> = Vec::new();
        if n == 0 {
            return out;
        }
        let mut i: usize = 0;
        while i < n - 1
            invariant
                n == s.len(),
                n > 0,
                i <= n - 1,
                s == self.samples@,
                self.is_finalized(),
                resampled_upto(s, i as int, out@),
            decreases n - i,
        {
            let cur = self.samples[i];
            let next = self.samples[i + 1];
            let ghost before = out@;
            let ghost extra: Option<Sample<S>> = None;
            proof {
                assert(s[i as int].epoch@ < s[i as int + 1].epoch@);
                use_type_invariant(&cur.epoch);
                use_type_invariant(&next.epoch);
                cur.epoch.lemma_well_formed();
                next.epoch.lemma_well_formed();
                lemma_div_bounds(next.epoch@ - cur.epoch@, 2);
            }
            let half = next.epoch.since(&cur.epoch).divided_by(2);
            out.push(cur);
            if half.is_positive() {
                match cur.epoch.checked_add(&half) {
                    Some(mid) => {
                        match self.at(mid) {
                            Ok(state) => {
                                out.push(Sample { epoch: mid, state });
                                proof {
                                    extra = Some(Sample { epoch: mid, state });
                                }
                            },
                            Err(error) => {
                                assert(mid@ == mid_at(s, i as int));
                                assert(at_result(
                                    s,
                                    Epoch::at(mid_at(s, i as int)),
                                    Err::<S, NyxError>(error),
                                ));
                            },
                        }
                    },
                    None => {
                        assert(false);
                    },
                }
            }
            proof {
                lemma_resample_step(s, i as int, before, extra);
            }
            i = i + 1;
        }
        let ghost before = out@;
        out.push(self.samples[n - 1]);
        proof {
            lemma_resample_done(s, before);
        }
        out
    }

    /// The trajectory in another frame: the samples of `resampled`, each with its
    /// state changed by `convert`.
    pub fn to_frame<F: Fn(&S) -> S>(&self, convert: F) -> (r: Result<Traj<S>, NyxError>)
        requires
            self.is_finalized(),
            forall|x: S| call_requires(convert, (&x,)),
        ensures
            self@.len() == 0 ==> (r matches Err(e) && is_creation_error(
                e,
                "No trajectory to convert"@,
            )),
            self@.len() > 0 ==> (r matches Ok(t) && t.is_finalized() && t.spec_name() is None
                && exists|pre: Seq<Sample<S>>|
                is_resampling_of(pre, self@) && #[trigger] is_conversion_of(t@, pre, convert)),
    {
        if self.samples.len() == 0 {
            return Err(
                NyxError::Trajectory(TrajError::CreationError("No trajectory to convert".to_owned())),
            );
        }
        let pre = self.resampled();
        let mut out: Vec<Sample<S>> = Vec::with_capacity(pre.len());
        let mut k: usize = 0;
        while k < pre.len()
            invariant
                k <= pre@.len(),
                out@.len() == k,
                forall|x: S| call_requires(convert, (&x,)),
                forall|j: int|
                    0 <= j < k ==> (#[trigger] out@[j]).epoch == pre@[j].epoch && call_ensures(
                        convert,
                        (&pre@[j].state,),
                        out@[j].state,
                    ),
            decreases pre@.len() - k,
        {
            let sample = pre[k];
            let state = convert(&sample.state);
            out.push(Sample { epoch: sample.epoch, state });
            k = k + 1;
        }
        assert(strictly_increasing(out@)) by {
            assert forall|a: int, b: int| 0 <= a < b < out@.len() implies (#[trigger] out@[a]).epoch@
                < (#[trigger] out@[b]).epoch@ by {
                assert(pre@[a].epoch@ < pre@[b].epoch@);
            }
        }
        let t = Traj { name: None, samples: out, dirty: false };
        assert(is_resampling_of(pre@, self@) && is_conversion_of(t@, pre@, convert));
        Ok(t)
    }

    /// The samples, taken out of the trajectory.
    pub fn into_samples(self) -> (r: Vec<Sample<S>>)
        ensures
            r@ == self@,
    {
        self.samples
    }

    /// The states of the trajectory every `step` from `start` to `end`, both
    /// included, to be asked for one after the other.
    pub fn every_between(
        &self,
        step: Duration,
        start: Epoch,
        end: Epoch,
    ) -> (r: TrajIterator<'_, S>)
        requires
            self.is_finalized(),
            step@ > 0,
            series_fits(series_len(start@, end@, step@)),
        ensures
            r.source() == self@,
            r.series() == r.pending(),
            r.pending().len() == series_len(start@, end@, step@),
            forall|k: int|
                0 <= k < r.pending().len() ==> #[trigger] r.pending()[k] == Epoch::at(
                    start@ + k * step@,
                ),
    {
        let epochs = time_series(start, end, step);
        let r = TrajIterator { epochs, cursor: 0, traj: self };
        assert(r.pending() == r.epochs@);
        r
    }

    /// The states of the trajectory every `step` from its first sample to its
    /// last, to be asked for one after the other.
    pub fn every(&self, step: Duration) -> (r: TrajIterator<'_, S>)
        requires
            self.is_finalized(),
            self@.len() > 0,
            step@ > 0,
            series_fits(series_len(self@.first().epoch@, self@.last().epoch@, step@)),
        ensures
            r.source() == self@,
            r.series() == r.pending(),
            r.pending().len() == series_len(self@.first().epoch@, self@.last().epoch@, step@),
            forall|k: int|
                0 <= k < r.pending().len() ==> #[trigger] r.pending()[k] == Epoch::at(
                    self@.first().epoch@ + k * step@,
                ),
    {
        self.every_between(step, self.first_epoch(), self.last_epoch())
    }

    /// The brackets in which to search for an event: the span of the trajectory in
    /// a hundred parts. A trajectory of one sample has no span to search, which is
    /// the error that the event `event` was not found.
    pub fn search_brackets(&self, event: &str) -> (r: Result<Vec<(Epoch, Epoch)>, NyxError>)
        requires
            self.is_finalized(),
            self@.len() > 0,
        ensures
            self@.len() == 1 ==> (r matches Err(e) && is_event_not_found(
                e,
                self@.first().epoch,
                self@.last().epoch,
                event@,
            )),
            self@.len() > 1 ==> (r matches Ok(b) && is_partition(
                b@,
                self@.first().epoch@,
                self@.last().epoch@,
            )),
    {
        let first = self.first_epoch();
        let last = self.last_epoch();
        let ghost s = self@;
        if self.samples.len() == 1 {
            return Err(
                NyxError::Trajectory(
                    TrajError::EventNotFound { start: first, end: last, event: event.to_owned() },
                ),
            );
        }
        assert(s[0].epoch@ < s[s.len() - 1].epoch@);
        let width = last.since(&first).divided_by(100);
        let mut brackets: Vec<(Epoch, Epoch)> = Vec::new();
        if !width.is_positive() {
            return Ok(brackets);
        }
        proof {
            lemma_partition_len(last@ - first@);
        }
        let series = time_series(first, last, width);
        let mut k: usize = 0;
        while k < series.len() - 1
            invariant
                k < series@.len(),
                brackets@.len() == k,
                width@ == (last@ - first@) / 100,
                series@.len() == (last@ - first@) / width@ + 1,
                forall|j: int|
                    0 <= j < series@.len() ==> #[trigger] series@[j] == Epoch::at(
                        first@ + j * width@,
                    ),
                forall|j: int|
                    0 <= j < k ==> #[trigger] brackets@[j] == (
                        Epoch::at(first@ + j * width@),
                        Epoch::at(first@ + (j + 1) * width@),
                    ),
            decreases series@.len() - k,
        {
            brackets.push((series[k], series[k + 1]));
            k = k + 1;
        }
        Ok(brackets)
    }

    /// The window around an extremum of an event in which to search for the
    /// event: a millisecond to either side of it, within the trajectory.
    pub fn extremum_window(&self, extremum: Epoch) -> (r: (Epoch, Epoch))
        requires
            self@.len() > 0,
        ensures
            r.0 == window_low(self@.first().epoch, extremum@),
            r.1 == window_high(self@.last().epoch, extremum@),
    {
        let first = self.first_epoch();
        let last = self.last_epoch();
        let millisecond = Duration::from_nanoseconds(1_000_000);
        proof {
            use_type_invariant(&first);
            use_type_invariant(&last);
            use_type_invariant(&extremum);
            first.lemma_well_formed();
            last.lemma_well_formed();
            extremum.lemma_well_formed();
        }
        let low = match extremum.checked_sub(&millisecond) {
            Some(e) => if e.is_before(&first) { first } else { e },
            None => first,
        };
        let high = match extremum.checked_add(&millisecond) {
            Some(e) => if last.is_before(&e) { last } else { e },
            None => last,
        };
        (low, high)
    }

    /// Puts the samples in the order of their epochs and keeps, of the samples at
    /// one epoch, the one that came first.
    pub fn finalize(&mut self)
        ensures
            final(self).is_finalized(),
            is_finalization_of(final(self)@, old(self)@),
            final(self).spec_name() == old(self).spec_name(),
    {
        let n = self.samples.len();
        let ghost s = self.samples@;
        let mut keys: Vec<(i16, u64, usize)> = Vec::with_capacity(n);
        let mut i: usize = 0;
        while i < n
            invariant
                i <= n,
                n == s.len(),
                s == self.samples@,
                keys@.len() == i,
                forall|k: int| 0 <= k < i ==> #[trigger] keys@[k] == key_of(s, k),
                forall|k: int| 0 <= k < i ==> epoch_parts((#[trigger] keys@[k]).0, keys@[k].1),
            decreases n - i,
        {
            let p = self.samples[i].epoch.to_parts();
            keys.push((p.0, p.1, i));
            i = i + 1;
        }
        let ghost keys0 = keys@;
        sort_keys(&mut keys);
        let ghost keys1 = keys@;
        proof {
            lemma_sorted_keys(s, keys0, keys1);
        }
        let mut out: Vec<Sample<S>> = Vec::with_capacity(n);
        let mut k: usize = 0;
        while k < n
            invariant
                k <= n,
                n == s.len(),
                s == self.samples@,
                keys@ == keys1,
                sorted_keys(s, keys1),
                gathered(s, keys1, k as int, out@),
            decreases n - k,
        {
            let idx = keys[k].2;
            let sample = self.samples[idx];
            let fresh = if out.len() == 0 {
                true
            } else {
                !out[out.len() - 1].epoch.is_same(&sample.epoch)
            };
            proof {
                lemma_gather_step(s, keys1, out@, k as int, fresh);
            }
            if fresh {
                out.push(sample);
            }
            k = k + 1;
        }
        proof {
            lemma_gathered(s, keys1, out@);
        }
        self.samples = out;
        self.dirty = false;
    }
}

impl<S: InterpState> Default for Traj<S> {
    /// An empty trajectory without a name.
    fn default() -> (r: Self)
        ensures
            r@.len() == 0,
            r.is_finalized(),
            r.spec_name() is None,
    {
        Traj::new()
    }
}

impl<S: InterpState> Clone for Traj<S> {
    /// A trajectory with the same name and the same samples.
    fn clone(&self) -> (r: Self)
        ensures
            r@ == self@,
            r.is_finalized() == self.is_finalized(),
            r.spec_name() == self.spec_name(),
    {
        proof {
            use_type_invariant(self);
        }
        let name = match &self.name {
            Some(name) => Some(name.clone()),
            None => None,
        };
        let mut samples: Vec<Sample<S>> = Vec::with_capacity(self.samples.len());
        let mut i: usize = 0;
        while i < self.samples.len()
            invariant
                i <= self.samples@.len(),
                samples@ == self.samples@.subrange(0, i as int),
            decreases self.samples@.len() - i,
        {
            samples.push(self.samples[i]);
            assert(samples@ == self.samples@.subrange(0, i as int + 1));
            i = i + 1;
        }
        assert(self.samples@.subrange(0, i as int) == self.samples@);
        Traj { name, samples, dirty: self.dirty }
    }
}

/// The states of a trajectory at the epochs of a time series, each rebuilt when
/// it is asked for.
pub struct TrajIterator<'a, S: InterpState> {
    epochs: Vec<Epoch>,
    cursor: usize,
    traj: &'a Traj<S>,
}

impl<'a, S: InterpState> TrajIterator<'a, S> {
    #[verifier::type_invariant]
    spec fn well_formed(self) -> bool {
        self.cursor <= self.epochs@.len() && self.traj.is_finalized()
    }

    /// The epochs of the whole series, from its first on.
    pub closed spec fn series(&self) -> Seq<Epoch> {
        self.epochs@
    }

    /// The epochs that are still to come: the last of the series.
    pub closed spec fn pending(&self) -> Seq<Epoch> {
        self.epochs@.subrange(self.cursor as int, self.epochs@.len() as int)
    }

    /// The samples of the trajectory.
    pub closed spec fn source(&self) -> Seq<Sample<S>> {
        self.traj@
    }

    /// The number of epochs that are still to come.
    pub fn remaining(&self) -> (r: usize)
        ensures
            r == self.pending().len(),
    {
        proof {
            use_type_invariant(self);
        }
        self.epochs.len() - self.cursor
    }

    /// Goes back to the first epoch of the series: all its epochs are to come
    /// again, those that were still to come last.
    pub fn restart(&mut self)
        ensures
            final(self).source() == old(self).source(),
            final(self).series() == old(self).series(),
            final(self).pending() == old(self).series(),
            old(self).pending().len() <= old(self).series().len(),
            old(self).pending() == old(self).series().subrange(
                old(self).series().len() - old(self).pending().len(),
                old(self).series().len() as int,
            ),
    {
        proof {
            use_type_invariant(&*self);
        }
        self.cursor = 0;
        assert(self.epochs@.subrange(0, self.epochs@.len() as int) == self.epochs@);
    }

    /// The state at the next epoch of the series, and `None` where the trajectory
    /// has no answer at that epoch or the series is at its end.
    pub fn next(&mut self) -> (r: Option<S>)
        ensures
            final(self).source() == old(self).source(),
            final(self).series() == old(self).series(),
            old(self).pending().len() == 0 ==> r is None && final(self).pending() == old(
                self,
            ).pending(),
            old(self).pending().len() > 0 ==> final(self).pending() == old(
                self,
            ).pending().drop_first() && answers(old(self).source(), old(self).pending()[0], r),
    {
        proof {
            use_type_invariant(&*self);
        }
        if self.cursor >= self.epochs.len() {
            return None;
        }
        let epoch = self.epochs[self.cursor];
        self.cursor = self.cursor + 1;
        match self.traj.at(epoch) {
            Ok(state) => Some(state),
            Err(error) => None,
        }
    }
}

/// Whether `r` is what is left of an answer of the finalized samples `s` to a
/// query at `epoch` once its error is dropped.
pub open spec fn answers<S: InterpState>(s: Seq<Sample<S>>, epoch: Epoch, r: Option<S>) -> bool {
    match r {
        Some(state) => at_result(s, epoch, Ok::<S, NyxError>(state)),
        None => exists|error: NyxError| #[trigger] at_result(s, epoch, Err::<S, NyxError>(error)),
    }
}

/// The events found in a search, in the order of their epochs and one for each
/// epoch; where none was found, the error that the event `event` was not found
/// between `start` and `end`.
pub fn collect_events<S: InterpState>(
    found: Vec<Sample<S>>,
    start: Epoch,
    end: Epoch,
    event: &str,
) -> (r: Result<Vec<Sample<S>>, NyxError>)
    ensures
        found@.len() == 0 ==> (r matches Err(e) && is_event_not_found(e, start, end, event@)),
        found@.len() > 0 ==> (r matches Ok(v) && is_finalization_of(v@, found@)),
{
    if found.len() == 0 {
        return Err(
            NyxError::Trajectory(TrajError::EventNotFound { start, end, event: event.to_owned() }),
        );
    }
    let mut events = Traj::from_samples(found);
    events.finalize();
    Ok(events.into_samples())
}

/// A span of a hundred nanoseconds or more holds fewer than two hundred of its
/// hundredths.
proof fn lemma_partition_len(span: int)
    requires
        span / 100 > 0,
        span >= 0,
    ensures
        span / (span / 100) < 200,
{
    let width = span / 100;
    lemma_div_bounds(span, 100);
    lemma_div_bounds(span, width);
    assert(span / width < 200) by (nonlinear_arith)
        requires
            width >= 1,
            span < (width + 1) * 100,
            (span / width) * width <= span,
    {
    }
}

/// Two strictly increasing sequences that hold samples at the same epochs have
/// the same length and, place by place, the same epochs.
pub proof fn lemma_same_epochs<S>(a: Seq<Sample<S>>, b: Seq<Sample<S>>)
    requires
        strictly_increasing(a),
        strictly_increasing(b),
        forall|j: int| 0 <= j < a.len() ==> holds_epoch(b, (#[trigger] a[j]).epoch@),
        forall|j: int| 0 <= j < b.len() ==> holds_epoch(a, (#[trigger] b[j]).epoch@),
    ensures
        a.len() == b.len(),
        forall|j: int| 0 <= j < a.len() ==> (#[trigger] a[j]).epoch@ == b[j].epoch@,
{
    let n = if a.len() <= b.len() { a.len() } else { b.len() };
    lemma_same_epochs_upto(a, b, n as int);
    if a.len() > n {
        assert(holds_epoch(b, a[n as int].epoch@));
        let m = choose|m: int| 0 <= m < b.len() && (#[trigger] b[m]).epoch@ == a[n as int].epoch@;
        assert(a[m].epoch@ == b[m].epoch@);
        assert(a[m].epoch@ < a[n as int].epoch@);
    }
    if b.len() > n {
        assert(holds_epoch(a, b[n as int].epoch@));
        let m = choose|m: int| 0 <= m < a.len() && (#[trigger] a[m]).epoch@ == b[n as int].epoch@;
        assert(a[m].epoch@ == b[m].epoch@);
        assert(b[m].epoch@ < b[n as int].epoch@);
    }
}

proof fn lemma_same_epochs_upto<S>(a: Seq<Sample<S>>, b: Seq<Sample<S>>, k: int)
    requires
        strictly_increasing(a),
        strictly_increasing(b),
        forall|j: int| 0 <= j < a.len() ==> holds_epoch(b, (#[trigger] a[j]).epoch@),
        forall|j: int| 0 <= j < b.len() ==> holds_epoch(a, (#[trigger] b[j]).epoch@),
        0 <= k <= a.len(),
        k <= b.len(),
    ensures
        forall|j: int| 0 <= j < k ==> (#[trigger] a[j]).epoch@ == b[j].epoch@,
    decreases k,
{
    if k > 0 {
        lemma_same_epochs_upto(a, b, k - 1);
        let j = k - 1;
        assert(holds_epoch(b, a[j].epoch@));
        let m = choose|m: int| 0 <= m < b.len() && (#[trigger] b[m]).epoch@ == a[j].epoch@;
        if m < j {
            assert(a[m].epoch@ == b[m].epoch@);
            assert(a[m].epoch@ < a[j].epoch@);
        }
        if m > j {
            assert(b[j].epoch@ < b[m].epoch@);
        }
        assert(b[j].epoch@ <= a[j].epoch@);
        assert(holds_epoch(a, b[j].epoch@));
        let w = choose|w: int| 0 <= w < a.len() && (#[trigger] a[w]).epoch@ == b[j].epoch@;
        if w < j {
            assert(a[w].epoch@ == b[w].epoch@);
            assert(b[w].epoch@ < b[j].epoch@);
        }
        if w > j {
            assert(a[j].epoch@ < a[w].epoch@);
        }
        assert(a[j].epoch@ <= b[j].epoch@);
    }
}

/// Finalizing has one result: two finalizations of the same samples are equal.
pub proof fn lemma_finalization_unique<S>(s: Seq<Sample<S>>, a: Seq<Sample<S>>, b: Seq<Sample<S>>)
    requires
        is_finalization_of(a, s),
        is_finalization_of(b, s),
    ensures
        a == b,
{
    assert forall|j: int| 0 <= j < a.len() implies holds_epoch(b, (#[trigger] a[j]).epoch@) by {
        assert(holds_first(s, a[j]));
        let i = choose|i: int| first_at(s, i) && #[trigger] s[i] == a[j];
        assert(holds_epoch(b, s[i].epoch@));
    }
    assert forall|j: int| 0 <= j < b.len() implies holds_epoch(a, (#[trigger] b[j]).epoch@) by {
        assert(holds_first(s, b[j]));
        let i = choose|i: int| first_at(s, i) && #[trigger] s[i] == b[j];
        assert(holds_epoch(a, s[i].epoch@));
    }
    lemma_same_epochs(a, b);
    assert forall|j: int| 0 <= j < a.len() implies a[j] == b[j] by {
        assert(holds_first(s, a[j]));
        assert(holds_first(s, b[j]));
        let i1 = choose|i: int| first_at(s, i) && #[trigger] s[i] == a[j];
        let i2 = choose|i: int| first_at(s, i) && #[trigger] s[i] == b[j];
        assert(a[j].epoch@ == b[j].epoch@);
        if i1 < i2 {
            assert(s[i1].epoch@ != s[i2].epoch@);
        }
        if i2 < i1 {
            assert(s[i2].epoch@ != s[i1].epoch@);
        }
    }
    assert(a =~= b);
}

/// Samples whose epochs strictly increase are their own finalization.
pub proof fn lemma_finalization_of_finalized<S>(s: Seq<Sample<S>>)
    requires
        strictly_increasing(s),
    ensures
        is_finalization_of(s, s),
{
    assert forall|j: int| 0 <= j < s.len() implies holds_first(s, #[trigger] s[j]) by {
        assert forall|k: int| 0 <= k < j implies (#[trigger] s[k]).epoch@ != s[j].epoch@ by {
            assert(s[k].epoch@ < s[j].epoch@);
        }
        assert(first_at(s, j));
    }
    assert forall|i: int| 0 <= i < s.len() implies holds_epoch(s, (#[trigger] s[i]).epoch@) by {
    }
}

/// Finalizing is idempotent: finalizing a second time changes nothing.
pub proof fn lemma_finalize_twice<S>(s: Seq<Sample<S>>, once: Seq<Sample<S>>, twice: Seq<Sample<S>>)
    requires
        is_finalization_of(once, s),
        is_finalization_of(twice, once),
    ensures
        twice == once,
{
    lemma_finalization_of_finalized(once);
    lemma_finalization_unique(once, twice, once);
}

/// Finalizing leaves exactly one sample at each epoch that the samples held: one
/// at least, and no two.
pub proof fn lemma_one_sample_per_epoch<S>(s: Seq<Sample<S>>, r: Seq<Sample<S>>, i: int)
    requires
        is_finalization_of(r, s),
        0 <= i < s.len(),
    ensures
        holds_epoch(r, s[i].epoch@),
        forall|j: int, k: int|
            0 <= j < r.len() && 0 <= k < r.len() && (#[trigger] r[j]).epoch@ == s[i].epoch@
                && (#[trigger] r[k]).epoch@ == s[i].epoch@ ==> j == k,
{
    assert forall|j: int, k: int|
        0 <= j < r.len() && 0 <= k < r.len() && (#[trigger] r[j]).epoch@ == s[i].epoch@
            && (#[trigger] r[k]).epoch@ == s[i].epoch@ implies j == k by {
        if j < k {
            assert(r[j].epoch@ < r[k].epoch@);
        }
        if k < j {
            assert(r[k].epoch@ < r[j].epoch@);
        }
    }
}

/// A query at the epoch of a sample of a finalized trajectory is answered with
/// the state of that sample.
pub proof fn lemma_exact_hit<S: InterpState>(s: Seq<Sample<S>>, i: int, r: Result<S, NyxError>)
    requires
        strictly_increasing(s),
        0 <= i < s.len(),
        at_result(s, s[i].epoch, r),
    ensures
        r == Ok::<S, NyxError>(s[i].state),
{
    if 0 < i {
        assert(s[0].epoch@ < s[i].epoch@);
    }
    if i < s.len() - 1 {
        assert(s[i].epoch@ < s[s.len() - 1].epoch@);
    }
    assert(holds_epoch(s, s[i].epoch@));
    let k = choose|k: int|
        0 <= k < s.len() && (#[trigger] s[k]).epoch@ == s[i].epoch@ && r == Ok::<S, NyxError>(
            s[k].state,
        );
    if k < i {
        assert(s[k].epoch@ < s[i].epoch@);
    }
    if i < k {
        assert(s[i].epoch@ < s[k].epoch@);
    }
}

/// A query outside the span of the samples is answered with the error of missing
/// data, and so is every query of an empty trajectory.
pub proof fn lemma_out_of_span<S: InterpState>(
    s: Seq<Sample<S>>,
    epoch: Epoch,
    r: Result<S, NyxError>,
)
    requires
        at_result(s, epoch, r),
        s.len() == 0 || epoch@ < s.first().epoch@ || s.last().epoch@ < epoch@,
    ensures
        r == Err::<S, NyxError>(NyxError::Trajectory(TrajError::NoInterpolationData(epoch))),
{
}

/// What holds of the resampling `out` once the samples before place `i` are in it.
spec fn resampled_upto<S: InterpState>(s: Seq<Sample<S>>, i: int, out: Seq<Sample<S>>) -> bool {
    &&& strictly_increasing(out)
    &&& forall|k: int| 0 <= k < out.len() ==> (#[trigger] out[k]).epoch@ < s[i].epoch@
    &&& forall|a: int| 0 <= a < i ==> holds_sample(out, #[trigger] s[a])
    &&& forall|k: int|
        0 <= k < out.len() ==> holds_sample(s, #[trigger] out[k]) || is_midpoint_sample(s, out[k])
    &&& forall|a: int|
        0 <= a < i && s[a].epoch@ < #[trigger] mid_at(s, a) ==> holds_epoch(out, mid_at(s, a))
            || midpoint_fails(s, a)
}

/// The resampling after the step that takes the sample at place `i`, and with it
/// the state `extra` half way to the next one, if there is one.
spec fn resample_step<S>(
    s: Seq<Sample<S>>,
    i: int,
    before: Seq<Sample<S>>,
    extra: Option<Sample<S>>,
) -> Seq<Sample<S>> {
    match extra {
        Some(x) => before.push(s[i]).push(x),
        None => before.push(s[i]),
    }
}

proof fn lemma_resample_step<S: InterpState>(
    s: Seq<Sample<S>>,
    i: int,
    before: Seq<Sample<S>>,
    extra: Option<Sample<S>>,
)
    requires
        strictly_increasing(s),
        0 <= i < s.len() - 1,
        resampled_upto(s, i, before),
        extra matches Some(x) ==> s[i].epoch@ < mid_at(s, i) && x.epoch == Epoch::at(mid_at(s, i))
            && x.epoch@ == mid_at(s, i) && at_result(s, x.epoch, Ok::<S, NyxError>(x.state)),
        extra is None && s[i].epoch@ < mid_at(s, i) ==> midpoint_fails(s, i),
    ensures
        resampled_upto(s, i + 1, resample_step(s, i, before, extra)),
{
    let after = resample_step(s, i, before, extra);
    let with_cur = before.push(s[i]);
    assert(s[i].epoch@ < s[i + 1].epoch@);
    lemma_div_bounds(s[i + 1].epoch@ - s[i].epoch@, 2);
    assert(mid_at(s, i) < s[i + 1].epoch@);
    assert forall|k: int| 0 <= k < after.len() implies (#[trigger] after[k]).epoch@ < s[i + 1].epoch@
        && (holds_sample(s, after[k]) || is_midpoint_sample(s, after[k])) by {
        if k < before.len() {
            assert(after[k] == before[k]);
        } else if k == before.len() {
            assert(after[k] == s[i]);
            assert(holds_sample(s, after[k]));
        } else {
            assert(after[k] == extra->0);
            assert(is_midpoint_sample(s, after[k]));
        }
    }
    assert(strictly_increasing(after)) by {
        assert forall|a: int, b: int| 0 <= a < b < after.len() implies (#[trigger] after[a]).epoch@ < (#[trigger] after[b]).epoch@ by {
            if b < before.len() {
                assert(after[a] == before[a] && after[b] == before[b]);
            } else if b == before.len() {
                assert(after[a] == before[a]);
                assert(after[b] == s[i]);
            } else {
                assert(after[b] == extra->0);
                if a < before.len() {
                    assert(after[a] == before[a]);
                } else {
                    assert(after[a] == s[i]);
                }
            }
        }
    }
    assert forall|a: int| 0 <= a < i + 1 implies holds_sample(after, #[trigger] s[a]) by {
        if a < i {
            assert(holds_sample(before, s[a]));
            let k = choose|k: int| 0 <= k < before.len() && #[trigger] before[k] == s[a];
            assert(after[k] == s[a]);
        } else {
            assert(after[before.len() as int] == s[i]);
        }
    }
    assert forall|a: int| 0 <= a < i + 1 && s[a].epoch@ < #[trigger] mid_at(s, a) implies holds_epoch(
        after,
        mid_at(s, a),
    ) || midpoint_fails(s, a) by {
        if a < i {
            if holds_epoch(before, mid_at(s, a)) {
                let k = choose|k: int| 0 <= k < before.len() && (#[trigger] before[k]).epoch@ == mid_at(s, a);
                assert(after[k] == before[k]);
            }
        } else {
            if extra is Some {
                assert(after[before.len() as int + 1] == extra->0);
            }
        }
    }
}

proof fn lemma_resample_done<S: InterpState>(s: Seq<Sample<S>>, before: Seq<Sample<S>>)
    requires
        strictly_increasing(s),
        s.len() > 0,
        resampled_upto(s, s.len() - 1, before),
    ensures
        is_resampling_of(before.push(s.last()), s),
{
    let n = s.len() as int;
    let after = before.push(s.last());
    assert forall|k: int| 0 <= k < after.len() implies holds_sample(s, #[trigger] after[k])
        || is_midpoint_sample(s, after[k]) by {
        if k < before.len() {
            assert(after[k] == before[k]);
        } else {
            assert(after[k] == s[n - 1]);
            assert(holds_sample(s, after[k]));
        }
    }
    assert(strictly_increasing(after)) by {
        assert forall|a: int, b: int| 0 <= a < b < after.len() implies (#[trigger] after[a]).epoch@ < (#[trigger] after[b]).epoch@ by {
            assert(after[a] == before[a]);
            if b < before.len() {
                assert(after[b] == before[b]);
            } else {
                assert(after[b] == s[n - 1]);
            }
        }
    }
    assert forall|a: int| 0 <= a < n implies holds_sample(after, #[trigger] s[a]) by {
        if a < n - 1 {
            assert(holds_sample(before, s[a]));
            let k = choose|k: int| 0 <= k < before.len() && #[trigger] before[k] == s[a];
            assert(after[k] == s[a]);
        } else {
            assert(after[before.len() as int] == s[a]);
        }
    }
    assert forall|a: int| 0 <= a < n - 1 && s[a].epoch@ < #[trigger] mid_at(s, a) implies holds_epoch(
        after,
        mid_at(s, a),
    ) || midpoint_fails(s, a) by {
        if holds_epoch(before, mid_at(s, a)) {
            let k = choose|k: int| 0 <= k < before.len() && (#[trigger] before[k]).epoch@ == mid_at(s, a);
            assert(after[k] == before[k]);
        }
    }
}

/// A conversion of a resampling holds, at the epoch of each sample, that sample
/// with its state changed by `convert`: the samples of a trajectory are converted
/// as they are, and never rebuilt from their neighbours.
pub proof fn lemma_to_frame_keeps_samples<S: InterpState, F: Fn(&S) -> S>(
    s: Seq<Sample<S>>,
    pre: Seq<Sample<S>>,
    t: Seq<Sample<S>>,
    convert: F,
    i: int,
)
    requires
        is_resampling_of(pre, s),
        is_conversion_of(t, pre, convert),
        0 <= i < s.len(),
    ensures
        exists|k: int|
            0 <= k < t.len() && (#[trigger] t[k]).epoch == s[i].epoch && call_ensures(
                convert,
                (&s[i].state,),
                t[k].state,
            ),
{
    assert(holds_sample(pre, s[i]));
    let k = choose|k: int| 0 <= k < pre.len() && #[trigger] pre[k] == s[i];
    assert(t[k].epoch == pre[k].epoch);
}

/// A trajectory that is converted to another frame and back holds each of its
/// samples again, where the conversion back undoes the conversion.
pub proof fn lemma_frame_round_trip<S: InterpState, F: Fn(&S) -> S, G: Fn(&S) -> S>(
    s: Seq<Sample<S>>,
    pre: Seq<Sample<S>>,
    there: Seq<Sample<S>>,
    again: Seq<Sample<S>>,
    back: Seq<Sample<S>>,
    forth: F,
    undo: G,
    i: int,
)
    requires
        is_resampling_of(pre, s),
        is_conversion_of(there, pre, forth),
        is_resampling_of(again, there),
        is_conversion_of(back, again, undo),
        forall|x: S, y: S, z: S|
            #![trigger call_ensures(forth, (&x,), y), call_ensures(undo, (&y,), z)]
            call_ensures(forth, (&x,), y) && call_ensures(undo, (&y,), z) ==> z == x,
        0 <= i < s.len(),
    ensures
        holds_sample(back, s[i]),
{
    lemma_to_frame_keeps_samples(s, pre, there, forth, i);
    let k = choose|k: int|
        0 <= k < there.len() && (#[trigger] there[k]).epoch == s[i].epoch && call_ensures(
            forth,
            (&s[i].state,),
            there[k].state,
        );
    lemma_to_frame_keeps_samples(there, again, back, undo, k);
    let j = choose|j: int|
        0 <= j < back.len() && (#[trigger] back[j]).epoch == there[k].epoch && call_ensures(
            undo,
            (&there[k].state,),
            back[j].state,
        );
    assert(back[j].state == s[i].state);
    assert(back[j] == s[i]);
}

/// The window around a query between two samples holds both of them, and holds
/// as many samples as a window has, or all where the trajectory has fewer.
pub proof fn lemma_window_surrounds(idx: int, len: int)
    requires
        0 < idx < len,
    ensures
        0 <= window_start(idx, len) <= idx - 1,
        idx < window_end(idx, len) <= len,
        window_end(idx, len) - window_start(idx, len) == if len < INTERPOLATION_SAMPLES {
            len
        } else {
            INTERPOLATION_SAMPLES as int
        },
{
}

/// The brackets of a partition lie one behind the other from `first` on, each as
/// wide as the hundredth of the span, and end less than that width before `last`;
/// of a span of a hundred nanoseconds or more they are a hundred at least and
/// fewer than two hundred.
pub proof fn lemma_partition_covers(b: Seq<(Epoch, Epoch)>, first: int, last: int)
    requires
        epoch_range(first),
        epoch_range(last),
        first + 100 <= last,
        is_partition(b, first, last),
    ensures
        100 <= b.len() < 200,
        forall|k: int|
            0 <= k < b.len() ==> (#[trigger] b[k]).0@ == first + k * ((last - first) / 100)
                && b[k].1@ == b[k].0@ + (last - first) / 100 && b[k].1@ <= last,
        last - b.last().1@ < (last - first) / 100,
{
    let span = last - first;
    let width = span / 100;
    lemma_div_bounds(span, 100);
    assert(width >= 1) by (nonlinear_arith)
        requires
            span >= 100,
            span < (width + 1) * 100,
    {
    }
    lemma_partition_len(span);
    lemma_div_bounds(span, width);
    let n = span / width;
    assert(n >= 100) by (nonlinear_arith)
        requires
            width >= 1,
            width * 100 <= span,
            span < (n + 1) * width,
    {
    }
    assert forall|k: int| 0 <= k < b.len() implies (#[trigger] b[k]).0@ == first + k * width && b[k].1@
        == b[k].0@ + width && b[k].1@ <= last by {
        assert(0 <= k * width && (k + 1) * width <= n * width && (k + 1) * width == k * width
            + width) by (nonlinear_arith)
            requires
                0 <= k < n,
                width >= 1,
        {
        }
        Epoch::lemma_at(first + k * width);
        Epoch::lemma_at(first + (k + 1) * width);
    }
    assert(b.last() == b[n - 1]);
    assert(b[n - 1].1@ == first + (n - 1) * width + width);
    assert((n - 1) * width + width == n * width && (n + 1) * width == n * width + width)
        by (nonlinear_arith);
}

/// The sort key of the sample at place `i`.
pub open spec fn key_of<S>(s: Seq<Sample<S>>, i: int) -> (i16, u64, usize) {
    (s[i].epoch.parts().0, s[i].epoch.parts().1, i as usize)
}

/// Whether `key` is among `keys`.
spec fn has_key(keys: Seq<(i16, u64, usize)>, key: (i16, u64, usize)) -> bool {
    exists|a: int| 0 <= a < keys.len() && #[trigger] keys[a] == key
}

/// What is known of the sorted keys of `s`: each is the key of one sample, each
/// sample has its key among them, and they strictly ascend.
spec fn sorted_keys<S>(s: Seq<Sample<S>>, keys: Seq<(i16, u64, usize)>) -> bool {
    &&& keys.len() == s.len()
    &&& s.len() <= usize::MAX
    &&& forall|a: int|
        0 <= a < keys.len() ==> (#[trigger] keys[a]).2 < s.len() && keys[a] == key_of(
            s,
            keys[a].2 as int,
        )
    &&& forall|a: int, b: int|
        0 <= a < b < keys.len() ==> key_le(#[trigger] keys[a], #[trigger] keys[b]) && keys[a]
            != keys[b]
    &&& forall|i: int| 0 <= i < s.len() ==> has_key(keys, #[trigger] key_of(s, i))
    &&& forall|i: int|
        0 <= i < s.len() ==> epoch_parts(
            (#[trigger] s[i]).epoch.parts().0,
            s[i].epoch.parts().1,
        )
}

/// What holds of the samples `out` gathered from the first `k` sorted keys.
spec fn gathered<S>(
    s: Seq<Sample<S>>,
    keys: Seq<(i16, u64, usize)>,
    k: int,
    out: Seq<Sample<S>>,
) -> bool {
    &&& strictly_increasing(out)
    &&& k == 0 ==> out.len() == 0
    &&& k > 0 ==> out.len() > 0 && out.last().epoch == s[keys[k - 1].2 as int].epoch
    &&& forall|j: int| 0 <= j < out.len() ==> holds_first(s, #[trigger] out[j])
    &&& forall|a: int| 0 <= a < k ==> holds_epoch(out, s[(#[trigger] keys[a]).2 as int].epoch@)
}

/// Keys are ordered as the epochs of their samples, and at one epoch as the places.
proof fn lemma_key_order<S>(s: Seq<Sample<S>>, i: int, j: int)
    requires
        0 <= i < s.len(),
        0 <= j < s.len(),
        s.len() <= usize::MAX,
        epoch_parts(s[i].epoch.parts().0, s[i].epoch.parts().1),
        epoch_parts(s[j].epoch.parts().0, s[j].epoch.parts().1),
    ensures
        key_le(key_of(s, i), key_of(s, j)) ==> s[i].epoch@ <= s[j].epoch@,
        s[i].epoch@ == s[j].epoch@ ==> s[i].epoch == s[j].epoch,
        s[i].epoch@ == s[j].epoch@ ==> (key_le(key_of(s, i), key_of(s, j)) <==> i <= j),
{
    s[i].epoch.lemma_view(s[j].epoch);
    s[j].epoch.lemma_view(s[i].epoch);
    lemma_parts_order(
        s[i].epoch.parts().0,
        s[i].epoch.parts().1,
        s[j].epoch.parts().0,
        s[j].epoch.parts().1,
    );
}

proof fn lemma_sorted_keys<S>(
    s: Seq<Sample<S>>,
    keys0: Seq<(i16, u64, usize)>,
    keys1: Seq<(i16, u64, usize)>,
)
    requires
        keys0.len() == s.len(),
        s.len() <= usize::MAX,
        forall|k: int| 0 <= k < keys0.len() ==> #[trigger] keys0[k] == key_of(s, k),
        forall|k: int| 0 <= k < keys0.len() ==> epoch_parts((#[trigger] keys0[k]).0, keys0[k].1),
        keys1.to_multiset() == keys0.to_multiset(),
        forall|a: int, b: int| 0 <= a < b < keys1.len() ==> key_le(#[trigger] keys1[a], #[trigger] keys1[b]),
    ensures
        sorted_keys(s, keys1),
{
    broadcast use vstd::seq_lib::group_to_multiset_ensures;
    assert(keys1.len() == keys0.len()) by {
        keys0.to_multiset_ensures();
        keys1.to_multiset_ensures();
    }
    assert forall|a: int| 0 <= a < keys1.len() implies (#[trigger] keys1[a]).2 < s.len()
        && keys1[a] == key_of(s, keys1[a].2 as int) by {
        assert(keys1.contains(keys1[a]));
        assert(keys1.to_multiset().count(keys1[a]) > 0);
        assert(keys0.contains(keys1[a]));
        let i = choose|i: int| 0 <= i < keys0.len() && keys0[i] == keys1[a];
        assert(keys0[i] == key_of(s, i));
    }
    assert(keys0.no_duplicates()) by {
        assert forall|i: int, j: int|
            0 <= i < keys0.len() && 0 <= j < keys0.len() && i != j implies keys0[i] != keys0[j] by {
            assert(keys0[i] == key_of(s, i));
            assert(keys0[j] == key_of(s, j));
        }
    }
    keys0.lemma_multiset_has_no_duplicates();
    keys1.lemma_multiset_has_no_duplicates_conv();
    assert forall|i: int| 0 <= i < s.len() implies has_key(keys1, #[trigger] key_of(s, i)) by {
        assert(keys0[i] == key_of(s, i));
        assert(keys0.contains(keys0[i]));
        assert(keys0.to_multiset().count(keys0[i]) > 0);
        assert(keys1.contains(keys0[i]));
        let a = choose|a: int| 0 <= a < keys1.len() && keys1[a] == keys0[i];
        assert(keys1[a] == key_of(s, i));
    }
    assert forall|i: int| 0 <= i < s.len() implies epoch_parts(
        (#[trigger] s[i]).epoch.parts().0,
        s[i].epoch.parts().1,
    ) by {
        assert(keys0[i] == key_of(s, i));
    }
    assert forall|a: int, b: int| 0 <= a < b < keys1.len() implies key_le(
        #[trigger] keys1[a],
        #[trigger] keys1[b],
    ) && keys1[a] != keys1[b] by {
        assert(keys1.no_duplicates());
    }
}

proof fn lemma_gather_step<S>(
    s: Seq<Sample<S>>,
    keys: Seq<(i16, u64, usize)>,
    out: Seq<Sample<S>>,
    k: int,
    fresh: bool,
)
    requires
        sorted_keys(s, keys),
        gathered(s, keys, k, out),
        0 <= k < s.len(),
        fresh == (out.len() == 0 || out.last().epoch@ != s[keys[k].2 as int].epoch@),
    ensures
        gathered(s, keys, k + 1, if fresh { out.push(s[keys[k].2 as int]) } else { out }),
{
    let idx = keys[k].2 as int;
    let sample = s[idx];
    assert(keys[k] == key_of(s, idx));
    if k > 0 {
        let prev = keys[k - 1].2 as int;
        assert(keys[k - 1] == key_of(s, prev));
        assert(key_le(keys[k - 1], keys[k]));
        lemma_key_order(s, prev, idx);
        assert(out.last().epoch@ <= sample.epoch@);
    }
    if fresh {
        let next = out.push(sample);
        assert(strictly_increasing(next)) by {
            assert forall|i: int, j: int| 0 <= i < j < next.len() implies (#[trigger] next[i]).epoch@ < (#[trigger] next[j]).epoch@ by {
                if j < out.len() {
                    assert(next[i] == out[i] && next[j] == out[j]);
                } else {
                    assert(next[j] == sample);
                    assert(next[i] == out[i]);
                    if i < out.len() - 1 {
                        assert(out[i].epoch@ < out[out.len() - 1].epoch@);
                    }
                }
            }
        }
        assert(first_at(s, idx)) by {
            assert forall|b: int| 0 <= b < idx implies (#[trigger] s[b]).epoch@ != s[idx].epoch@ by {
                if s[b].epoch@ == s[idx].epoch@ {
                    lemma_key_order(s, b, idx);
                    lemma_key_order(s, idx, b);
                    assert(has_key(keys, key_of(s, b)));
                    let a = choose|a: int| 0 <= a < keys.len() && #[trigger] keys[a] == key_of(s, b);
                    assert(keys[a].2 == b);
                    if a > k {
                        assert(key_le(keys[k], keys[a]));
                    }
                    assert(a != k);
                    assert(a < k);
                    assert(holds_epoch(out, s[keys[a].2 as int].epoch@));
                    let j = choose|j: int| 0 <= j < out.len() && (#[trigger] out[j]).epoch@ == s[keys[a].2 as int].epoch@;
                    if j < out.len() - 1 {
                        assert(out[j].epoch@ < out[out.len() - 1].epoch@);
                    }
                    assert(false);
                }
            }
        }
        assert forall|j: int| 0 <= j < next.len() implies holds_first(s, #[trigger] next[j]) by {
            if j < out.len() {
                assert(next[j] == out[j]);
                assert(holds_first(s, out[j]));
            } else {
                assert(first_at(s, idx) && s[idx] == next[j]);
            }
        }
        assert forall|a: int| 0 <= a < k + 1 implies holds_epoch(
            next,
            s[(#[trigger] keys[a]).2 as int].epoch@,
        ) by {
            if a < k {
                assert(holds_epoch(out, s[keys[a].2 as int].epoch@));
                let j = choose|j: int| 0 <= j < out.len() && (#[trigger] out[j]).epoch@ == s[keys[a].2 as int].epoch@;
                assert(next[j] == out[j]);
            } else {
                assert(next[out.len() as int] == sample);
            }
        }
        assert(next.last() == sample);
    } else {
        lemma_key_order(s, idx, idx);
        assert(out.last().epoch@ == sample.epoch@);
        assert(holds_first(s, out[out.len() - 1]));
        let a0 = choose|a: int| first_at(s, a) && #[trigger] s[a] == out[out.len() - 1];
        lemma_key_order(s, a0, idx);
        assert forall|a: int| 0 <= a < k + 1 implies holds_epoch(
            out,
            s[(#[trigger] keys[a]).2 as int].epoch@,
        ) by {
            if a < k {
            } else {
                assert(out[out.len() - 1].epoch@ == s[keys[a].2 as int].epoch@);
            }
        }
    }
}

proof fn lemma_gathered<S>(s: Seq<Sample<S>>, keys: Seq<(i16, u64, usize)>, out: Seq<Sample<S>>)
    requires
        sorted_keys(s, keys),
        gathered(s, keys, s.len() as int, out),
    ensures
        is_finalization_of(out, s),
{
    assert forall|i: int| 0 <= i < s.len() implies holds_epoch(out, (#[trigger] s[i]).epoch@) by {
        assert(has_key(keys, key_of(s, i)));
        let a = choose|a: int| 0 <= a < keys.len() && #[trigger] keys[a] == key_of(s, i);
        assert(keys[a].2 == i);
        assert(holds_epoch(out, s[keys[a].2 as int].epoch@));
    }
}

} // verus!
