//! The search for the epochs at which an event happens along a trajectory.
//!
//! The search for one event is Brent's: it keeps a bracket of two abscissas
//! between which the event changes its sign, and narrows it by inverse quadratic
//! interpolation, by the secant or by bisection. The arithmetic on abscissas and
//! on values of the event is the caller's, who reports what it found; what to do
//! with it is decided here. The search for all events goes through the
//! trajectory in a hundred parts.

use crate::errors::{is_event_not_found, NyxError, TrajError};
use crate::time::{series_fits, series_len, time_series, Epoch, Unit};
use crate::trajectory::{
    collect_events, is_finalization_of, is_partition, window_high, window_low, InterpState, Sample,
    Traj,
};
use vstd::prelude::*;

verus! {

/// The number of rounds after which the search gives up.
pub const MAX_ITERATIONS: u32 = 50;

/// What the search does next.
#[derive(Clone, Copy, Debug, PartialEq, Eq, Structural)]
pub enum SolverAction {
    /// The event is within its precision at the abscissa `xa`: the state there is
    /// the result.
    ReturnLower,
    /// The event is within its precision at the abscissa `xb`: the state there is
    /// the result.
    ReturnUpper,
    /// The bracket is narrower than the precision of the epoch, and the event is
    /// not in it.
    NotFound,
    /// The search has gone through all of its rounds.
    MaxIterReached,
    /// A trial abscissa is to be tried.
    Probe,
}

/// The state of the search: the bracket of `xa` and `xb` with the values `ya` and
/// `yb` of the event, the end `xc` of the bracket that was given up last with its
/// value `yc`, the one given up before it, and whether the last round bisected.
#[derive(Clone, Copy, Debug)]
pub struct Brent<X, Y> {
    pub xa: X,
    pub ya: Y,
    pub xb: X,
    pub yb: Y,
    pub xc: X,
    pub yc: Y,
    pub xd: X,
    pub bisected: bool,
    pub rounds: u32,
}

/// What the caller found of a trial abscissa.
#[derive(Clone, Copy, Debug)]
pub struct Trial {
    /// The trial abscissa is outside the quarter of the bracket next to `xb`.
    pub leaves_bracket: bool,
    /// The trial abscissa is at least half as far from `xb` as `xc` is.
    pub slow_after_bisection: bool,
    /// The trial abscissa is at least half as far from `xb` as `xd` is from `xc`.
    pub slow_after_interpolation: bool,
    /// `xb` and `xc` are closer than the precision of the epoch.
    pub stalled_after_bisection: bool,
    /// `xc` and `xd` are closer than the precision of the epoch.
    pub stalled_after_interpolation: bool,
}

/// Whether the search bisects the bracket in place of a trial abscissa of which
/// `trial` was found: where it leaves the bracket, and where it gains too little
/// on the round before or that round gained nothing, as measured after a
/// bisection or after an interpolation.
pub open spec fn must_bisect(bisected: bool, trial: Trial) -> bool {
    ||| trial.leaves_bracket
    ||| bisected && trial.slow_after_bisection
    ||| !bisected && trial.slow_after_interpolation
    ||| bisected && trial.stalled_after_bisection
    ||| !bisected && trial.stalled_after_interpolation
}

/// What the search does at the beginning of a round of which `rounds` came before.
pub open spec fn action_of(
    rounds: u32,
    lower_within: bool,
    upper_within: bool,
    collapsed: bool,
) -> SolverAction {
    if rounds >= MAX_ITERATIONS {
        SolverAction::MaxIterReached
    } else if lower_within {
        SolverAction::ReturnLower
    } else if upper_within {
        SolverAction::ReturnUpper
    } else if collapsed {
        SolverAction::NotFound
    } else {
        SolverAction::Probe
    }
}

impl<X: Copy, Y: Copy> Brent<X, Y> {
    /// The search in the bracket of `xa` and `xb`, where the event has the values
    /// `ya` and `yb`.
    pub fn new(xa: X, ya: Y, xb: X, yb: Y) -> (r: Self)
        ensures
            r == (Brent { xa, ya, xb, yb, xc: xa, yc: ya, xd: xa, bisected: true, rounds: 0 }),
    {
        Brent { xa, ya, xb, yb, xc: xa, yc: ya, xd: xa, bisected: true, rounds: 0 }
    }

    /// What to do at the beginning of a round. The caller reports whether the
    /// event is within its precision at `xa` and at `xb`, and whether the two are
    /// closer than the precision of the epoch.
    pub fn action(&self, lower_within: bool, upper_within: bool, collapsed: bool) -> (r:
        SolverAction)
        ensures
            r == action_of(self.rounds, lower_within, upper_within, collapsed),
    {
        if self.rounds >= MAX_ITERATIONS {
            SolverAction::MaxIterReached
        } else if lower_within {
            SolverAction::ReturnLower
        } else if upper_within {
            SolverAction::ReturnUpper
        } else if collapsed {
            SolverAction::NotFound
        } else {
            SolverAction::Probe
        }
    }

    /// Whether the round bisects the bracket in place of the trial abscissa.
    pub fn bisects(&self, trial: Trial) -> (r: bool)
        ensures
            r == must_bisect(self.bisected, trial),
    {
        trial.leaves_bracket || (self.bisected && trial.slow_after_bisection) || (!self.bisected
            && trial.slow_after_interpolation) || (self.bisected && trial.stalled_after_bisection)
            || (!self.bisected && trial.stalled_after_interpolation)
    }

    /// The state after a round that tried the abscissa `s`, where the event has the
    /// value `ys`. The event changes its sign either between `xa` and `s`, which
    /// `below` says, or between `s` and `xb`; `y_kept` is its value at the end of
    /// the bracket that is kept. Of the two ends of the new bracket the one with
    /// the value of smaller magnitude becomes `xb`: `first_larger` says whether it
    /// is the later of the two in the bracket.
    pub fn record(
        &mut self,
        s: X,
        ys: Y,
        bisected: bool,
        below: bool,
        y_kept: Y,
        first_larger: bool,
    )
        requires
            old(self).rounds < MAX_ITERATIONS,
        ensures
            *final(self) == old(self).recorded(s, ys, bisected, below, y_kept, first_larger),
    {
        self.xd = self.xc;
        self.xc = self.xb;
        self.yc = self.yb;
        self.bisected = bisected;
        self.rounds = self.rounds + 1;
        let (x1, y1, x2, y2) = if below {
            (self.xa, y_kept, s, ys)
        } else {
            (s, ys, self.xb, y_kept)
        };
        if first_larger {
            self.xa = x1;
            self.ya = y1;
            self.xb = x2;
            self.yb = y2;
        } else {
            self.xa = x2;
            self.ya = y2;
            self.xb = x1;
            self.yb = y1;
        }
    }

    /// The state after a round: the end `xb` of the old bracket is given up and
    /// remembered in `xc`, the old `xc` in `xd`; the new bracket is made of the
    /// trial abscissa and of the end of the old bracket beyond which the event
    /// changes its sign, the one with the larger value first.
    pub open spec fn recorded(
        self,
        s: X,
        ys: Y,
        bisected: bool,
        below: bool,
        y_kept: Y,
        first_larger: bool,
    ) -> Self {
        let first = if below { (self.xa, y_kept) } else { (s, ys) };
        let second = if below { (s, ys) } else { (self.xb, y_kept) };
        Brent {
            xa: if first_larger { first.0 } else { second.0 },
            ya: if first_larger { first.1 } else { second.1 },
            xb: if first_larger { second.0 } else { first.0 },
            yb: if first_larger { second.1 } else { first.1 },
            xc: self.xb,
            yc: self.yb,
            xd: self.xc,
            bisected,
            rounds: (self.rounds + 1) as u32,
        }
    }
}

/// The arithmetic of a search for the root of an event: what the search needs to
/// know of abscissas, of the kind `X`, and of values of the event, of the kind
/// `Y`, to decide on its rounds.
pub trait RootSearch<S> {
    /// An abscissa: a time along the trajectory
    type X: Copy;

    /// A value of the event
    type Y: Copy;

    /// The state at the abscissa `x`, and the value of the event there. It fails
    /// where the trajectory has no state there, and where the event has no value.
    fn sample(&self, x: Self::X) -> Result<(S, Self::Y), NyxError>;

    /// Whether the value `y` is, at an end of the first bracket, close enough to
    /// zero to be the root.
    fn is_root(&self, y: Self::Y) -> bool;

    /// Whether the value `y` is within the precision of the event.
    fn is_within(&self, y: Self::Y) -> bool;

    /// Whether the two abscissas are closer than the precision of the epoch.
    fn is_collapsed(&self, x1: Self::X, x2: Self::X) -> bool;

    /// The trial abscissa that the state of the search suggests, by inverse
    /// quadratic interpolation or by the secant, and what is to be said of it.
    fn trial(&self, state: &Brent<Self::X, Self::Y>) -> (Self::X, Trial);

    /// The abscissa half way between the two.
    fn middle(&self, xa: Self::X, xb: Self::X) -> Self::X;

    /// Whether the two values are of opposite signs.
    fn changes_sign(&self, ya: Self::Y, ys: Self::Y) -> bool;

    /// Whether the first value is of larger magnitude than the second.
    fn is_larger(&self, y1: Self::Y, y2: Self::Y) -> bool;
}

/// Whether `e` is the error of a search that went through all of its rounds.
pub open spec fn is_max_iter_reached(e: NyxError) -> bool {
    e matches NyxError::MaxIterReached(what) && what@ == "Brent solver failed after 50 iterations"@
}

/// Whether `r` is the state of a sample at the abscissa `x`, or the error in which
/// that sample failed.
pub open spec fn is_state_at<S, P: RootSearch<S>>(
    problem: &P,
    x: P::X,
    r: Result<S, NyxError>,
) -> bool {
    exists|sampled: Result<(S, P::Y), NyxError>|
        #[trigger] call_ensures(P::sample, (problem, x), sampled) && match sampled {
            Ok(pair) => r == Ok::<S, NyxError>(pair.0),
            Err(e) => r == Err::<S, NyxError>(e),
        }
}

/// Whether the search that is in the state `state` may end in `r`. A round begins
/// with what `action_of` says of the two ends of the bracket: the search ends in
/// the state at an end where the event is within its precision there, in the
/// error that the event was not found where the bracket has collapsed, and in the
/// error that the rounds are used up after the last of them. Otherwise the round
/// tries an abscissa.
pub open spec fn search_yields<S, P: RootSearch<S>>(
    problem: &P,
    state: Brent<P::X, P::Y>,
    start: Epoch,
    end: Epoch,
    event: Seq<char>,
    r: Result<S, NyxError>,
) -> bool
    decreases MAX_ITERATIONS - state.rounds, 2int,
{
    exists|lower_within: bool, upper_within: bool, collapsed: bool|
        #![trigger
            call_ensures(P::is_within, (problem, state.ya), lower_within),
            call_ensures(P::is_within, (problem, state.yb), upper_within),
            call_ensures(P::is_collapsed, (problem, state.xa, state.xb), collapsed),
        ]
        {
            &&& call_ensures(P::is_within, (problem, state.ya), lower_within)
            &&& call_ensures(P::is_within, (problem, state.yb), upper_within)
            &&& call_ensures(P::is_collapsed, (problem, state.xa, state.xb), collapsed)
            &&& match action_of(state.rounds, lower_within, upper_within, collapsed) {
                SolverAction::ReturnLower => is_state_at(problem, state.xa, r),
                SolverAction::ReturnUpper => is_state_at(problem, state.xb, r),
                SolverAction::NotFound => r matches Err(e) && is_event_not_found(
                    e,
                    start,
                    end,
                    event,
                ),
                SolverAction::MaxIterReached => r matches Err(e) && is_max_iter_reached(e),
                SolverAction::Probe => trial_yields(problem, state, start, end, event, r),
            }
        }
}

/// Whether a round of the search in the state `state` that tries an abscissa may
/// end in `r`, or lead to it: the abscissa is the one that the state suggests, or
/// the middle of the bracket where `must_bisect` says so; the search ends in the
/// error of the sample there, if it fails.
pub open spec fn trial_yields<S, P: RootSearch<S>>(
    problem: &P,
    state: Brent<P::X, P::Y>,
    start: Epoch,
    end: Epoch,
    event: Seq<char>,
    r: Result<S, NyxError>,
) -> bool
    decreases MAX_ITERATIONS - state.rounds, 1int,
{
    exists|suggested: (P::X, Trial), s: P::X, sampled: Result<(S, P::Y), NyxError>|
        #![trigger
            call_ensures(P::trial, (problem, &state), suggested),
            call_ensures(P::sample, (problem, s), sampled),
        ]
        {
            &&& state.rounds < MAX_ITERATIONS
            &&& call_ensures(P::trial, (problem, &state), suggested)
            &&& if must_bisect(state.bisected, suggested.1) {
                call_ensures(P::middle, (problem, state.xa, state.xb), s)
            } else {
                s == suggested.0
            }
            &&& call_ensures(P::sample, (problem, s), sampled)
            &&& match sampled {
                Ok(pair) => rebracket_yields(
                    problem,
                    state,
                    s,
                    pair.1,
                    must_bisect(state.bisected, suggested.1),
                    start,
                    end,
                    event,
                    r,
                ),
                Err(e) => r == Err::<S, NyxError>(e),
            }
        }
}

/// Whether the search may end in `r` after it has tried the abscissa `s` in the
/// state `state` and found the value `ys` there. The end of the bracket beyond
/// which the event changes its sign is sampled again, and the search ends in the
/// error of that sample, if it fails; otherwise it goes on in the state that
/// `recorded` gives.
pub open spec fn rebracket_yields<S, P: RootSearch<S>>(
    problem: &P,
    state: Brent<P::X, P::Y>,
    s: P::X,
    ys: P::Y,
    bisected: bool,
    start: Epoch,
    end: Epoch,
    event: Seq<char>,
    r: Result<S, NyxError>,
) -> bool
    decreases MAX_ITERATIONS - state.rounds, 0int,
{
    exists|below: bool, again: Result<(S, P::Y), NyxError>|
        #![trigger
            call_ensures(P::changes_sign, (problem, state.ya, ys), below),
            call_ensures(P::sample, (problem, kept_end(state, below)), again),
        ]
        {
            &&& state.rounds < MAX_ITERATIONS
            &&& call_ensures(P::changes_sign, (problem, state.ya, ys), below)
            &&& call_ensures(P::sample, (problem, kept_end(state, below)), again)
            &&& match again {
                Ok(pair) => exists|first_larger: bool|
                    #[trigger] call_ensures(
                        P::is_larger,
                        (problem, first_value(below, pair.1, ys), second_value(below, pair.1, ys)),
                        first_larger,
                    ) && search_yields(
                        problem,
                        state.recorded(s, ys, bisected, below, pair.1, first_larger),
                        start,
                        end,
                        event,
                        r,
                    ),
                Err(e) => r == Err::<S, NyxError>(e),
            }
        }
}

/// The end of the bracket that is kept: `xa` where the root is below the trial
/// abscissa, and `xb` where it is above.
pub open spec fn kept_end<X, Y>(state: Brent<X, Y>, below: bool) -> X {
    if below {
        state.xa
    } else {
        state.xb
    }
}

/// The value at the first end of the new bracket: that at the end that is kept
/// where the root is below the trial abscissa, and else that at the trial abscissa.
pub open spec fn first_value<Y>(below: bool, y_kept: Y, ys: Y) -> Y {
    if below {
        y_kept
    } else {
        ys
    }
}

/// The value at the second end of the new bracket.
pub open spec fn second_value<Y>(below: bool, y_kept: Y, ys: Y) -> Y {
    if below {
        ys
    } else {
        y_kept
    }
}

/// Whether the search between the abscissas `lower` and `upper` may end in `r`.
/// The event is sampled at both, and the search ends in the error of a sample
/// that fails. It ends in the state at `lower`, and else in the state at `upper`,
/// where that is the root already; otherwise it begins its rounds in the bracket
/// of the two.
pub open spec fn search_begins<S, P: RootSearch<S>>(
    problem: &P,
    lower: P::X,
    upper: P::X,
    start: Epoch,
    end: Epoch,
    event: Seq<char>,
    r: Result<S, NyxError>,
) -> bool {
    exists|at_lower: Result<(S, P::Y), NyxError>|
        #[trigger] call_ensures(P::sample, (problem, lower), at_lower) && match at_lower {
            Err(e) => r == Err::<S, NyxError>(e),
            Ok(low) => exists|at_upper: Result<(S, P::Y), NyxError>|
                #[trigger] call_ensures(P::sample, (problem, upper), at_upper) && match at_upper {
                    Err(e) => r == Err::<S, NyxError>(e),
                    Ok(high) => exists|lower_is_root: bool|
                        #[trigger] call_ensures(P::is_root, (problem, low.1), lower_is_root) && if lower_is_root {
                            r == Ok::<S, NyxError>(low.0)
                        } else {
                            exists|upper_is_root: bool|
                                #[trigger] call_ensures(
                                    P::is_root,
                                    (problem, high.1),
                                    upper_is_root,
                                ) && if upper_is_root {
                                    r == Ok::<S, NyxError>(high.0)
                                } else {
                                    search_yields(
                                        problem,
                                        Brent {
                                            xa: lower,
                                            ya: low.1,
                                            xb: upper,
                                            yb: high.1,
                                            xc: lower,
                                            yc: low.1,
                                            xd: lower,
                                            bisected: true,
                                            rounds: 0,
                                        },
                                        start,
                                        end,
                                        event,
                                        r,
                                    )
                                }
                        },
                },
        }
}

/// The state at which the event is zero between the abscissas `lower` and
/// `upper`, which are those of the epochs `start` and `end`, where the event is
/// monotone between them: Brent's search for the root. It ends after fifty rounds
/// at the latest.
pub fn find_bracketed<S, P: RootSearch<S>>(
    problem: &P,
    lower: P::X,
    upper: P::X,
    start: Epoch,
    end: Epoch,
    event: &str,
) -> (r: Result<S, NyxError>)
    ensures
        search_begins(problem, lower, upper, start, end, event@, r),
{
    let (at_lower, ya) = match problem.sample(lower) {
        Ok(sampled) => sampled,
        Err(error) => {
            return Err(error);
        },
    };
    let (at_upper, yb) = match problem.sample(upper) {
        Ok(sampled) => sampled,
        Err(error) => {
            return Err(error);
        },
    };
    // Either end may be the root already.
    if problem.is_root(ya) {
        return Ok(at_lower);
    } else if problem.is_root(yb) {
        return Ok(at_upper);
    }
    let mut state = Brent::new(lower, ya, upper, yb);
    loop
        invariant
            state.rounds <= MAX_ITERATIONS,
            forall|r: Result<S, NyxError>| #[trigger]
                search_yields(problem, state, start, end, event@, r) ==> search_begins(
                    problem,
                    lower,
                    upper,
                    start,
                    end,
                    event@,
                    r,
                ),
        decreases MAX_ITERATIONS - state.rounds,
    {
        let ghost before = state;
        let lower_within = problem.is_within(state.ya);
        let upper_within = problem.is_within(state.yb);
        let collapsed = problem.is_collapsed(state.xa, state.xb);
        let action = state.action(lower_within, upper_within, collapsed);
        match action {
            SolverAction::ReturnLower => {
                let r = match problem.sample(state.xa) {
                    Ok(sampled) => Ok(sampled.0),
                    Err(error) => Err(error),
                };
                assert(is_state_at(problem, state.xa, r));
                assert(search_yields(problem, state, start, end, event@, r));
                return r;
            },
            SolverAction::ReturnUpper => {
                let r = match problem.sample(state.xb) {
                    Ok(sampled) => Ok(sampled.0),
                    Err(error) => Err(error),
                };
                assert(is_state_at(problem, state.xb, r));
                assert(search_yields(problem, state, start, end, event@, r));
                return r;
            },
            SolverAction::NotFound => {
                let r = Err(not_found(start, end, event));
                assert(search_yields(problem, state, start, end, event@, r));
                return r;
            },
            SolverAction::MaxIterReached => {
                let r = Err(
                    NyxError::MaxIterReached(
                        String::from_str("Brent solver failed after 50 iterations"),
                    ),
                );
                assert(search_yields(problem, state, start, end, event@, r));
                return r;
            },
            SolverAction::Probe => {},
        }
        let suggested = problem.trial(&state);
        let bisected = state.bisects(suggested.1);
        let s = if bisected {
            problem.middle(state.xa, state.xb)
        } else {
            suggested.0
        };
        let sampled = problem.sample(s);
        let ys = match sampled {
            Ok(pair) => pair.1,
            Err(error) => {
                let r = Err(error);
                assert(trial_yields(problem, state, start, end, event@, r));
                assert(search_yields(problem, state, start, end, event@, r));
                return r;
            },
        };
        let below = problem.changes_sign(state.ya, ys);
        // The end of the bracket beyond which the root lies is sampled again.
        let again = problem.sample(if below { state.xa } else { state.xb });
        assert(call_ensures(P::sample, (problem, kept_end(state, below)), again));
        let y_kept = match again {
            Ok(pair) => pair.1,
            Err(error) => {
                let r = Err(error);
                assert(rebracket_yields(problem, state, s, ys, bisected, start, end, event@, r));
                assert(trial_yields(problem, state, start, end, event@, r));
                assert(search_yields(problem, state, start, end, event@, r));
                return r;
            },
        };
        let first_larger = if below {
            problem.is_larger(y_kept, ys)
        } else {
            problem.is_larger(ys, y_kept)
        };
        assert(call_ensures(
            P::is_larger,
            (problem, first_value(below, y_kept, ys), second_value(below, y_kept, ys)),
            first_larger,
        ));
        state.record(s, ys, bisected, below, y_kept, first_larger);
        assert forall|r: Result<S, NyxError>| #[trigger]
            search_yields(problem, state, start, end, event@, r) implies search_begins(
            problem,
            lower,
            upper,
            start,
            end,
            event@,
            r,
        ) by {
            assert(rebracket_yields(problem, before, s, ys, bisected, start, end, event@, r));
            assert(trial_yields(problem, before, start, end, event@, r));
            assert(search_yields(problem, before, start, end, event@, r));
        }
    }
}

/// The error that the event `event` was not found between `start` and `end`.
fn not_found(start: Epoch, end: Epoch, event: &str) -> (r: NyxError)
    ensures
        is_event_not_found(r, start, end, event@),
{
    NyxError::Trajectory(TrajError::EventNotFound { start, end, event: event.to_owned() })
}

/// The arithmetic of a search for the extrema of an event.
pub trait Extrema<S> {
    /// A value of the event
    type Y: Copy;

    /// The values of the event at each of the epochs, each with the state at its
    /// epoch, in any order.
    fn evaluate(&self, epochs: Vec<Epoch>) -> Vec<(Self::Y, S)>;

    /// Whether the value `a` is less than the value `b`.
    fn is_less(&self, a: Self::Y, b: Self::Y) -> bool;

    /// The values from which the search sets out: one above all values for the
    /// least, and one below all values for the greatest.
    fn beyond_all(&self) -> (Self::Y, Self::Y);

    /// The state that stands for an extremum that was not found.
    fn zeros(&self) -> S;
}

/// The least and the greatest value of an event, and the states at which it has
/// them.
pub struct Extremes<S, Y> {
    pub least: Y,
    pub least_state: S,
    pub greatest: Y,
    pub greatest_state: S,
}

/// The extremes after one more value of the event, `y` at the state `state`, of
/// which `lower` says whether it is less than the least so far and `higher`
/// whether it is greater than the greatest so far.
pub open spec fn extended<S, Y>(
    of: Extremes<S, Y>,
    y: Y,
    state: S,
    lower: bool,
    higher: bool,
) -> Extremes<S, Y> {
    Extremes {
        least: if lower { y } else { of.least },
        least_state: if lower { state } else { of.least_state },
        greatest: if higher { y } else { of.greatest },
        greatest_state: if higher { state } else { of.greatest_state },
    }
}

/// Whether `r` are the extremes that `before` may become by one more value of the
/// event, `item`: the value takes the place of the least where it is less, and
/// of the greatest where the greatest is less.
pub open spec fn step_yields<S, P: Extrema<S>>(
    problem: &P,
    before: Extremes<S, P::Y>,
    item: (P::Y, S),
    r: Extremes<S, P::Y>,
) -> bool {
    exists|lower: bool, higher: bool|
        #![trigger
            call_ensures(P::is_less, (problem, item.0, before.least), lower),
            call_ensures(P::is_less, (problem, before.greatest, item.0), higher),
        ]
        {
            &&& call_ensures(P::is_less, (problem, item.0, before.least), lower)
            &&& call_ensures(P::is_less, (problem, before.greatest, item.0), higher)
            &&& r == extended(before, item.0, item.1, lower, higher)
        }
}

/// Whether `r` are extremes that a scan of the values `evals` may give that sets
/// out from the extremes `from` and takes each value in its turn.
pub open spec fn scan_yields<S, P: Extrema<S>>(
    problem: &P,
    evals: Seq<(P::Y, S)>,
    from: Extremes<S, P::Y>,
    r: Extremes<S, P::Y>,
) -> bool
    decreases evals.len(),
{
    if evals.len() == 0 {
        r == from
    } else {
        exists|before: Extremes<S, P::Y>|
            scan_yields(problem, evals.drop_last(), from, before) && #[trigger] step_yields(
                problem,
                before,
                evals.last(),
                r,
            )
    }
}

/// Whether `epochs` are the epochs of a time series from `first` to `last`, both
/// included, in steps of `step` nanoseconds.
pub open spec fn is_grid(epochs: Seq<Epoch>, first: int, last: int, step: int) -> bool {
    &&& epochs.len() == series_len(first, last, step)
    &&& forall|k: int| 0 <= k < epochs.len() ==> #[trigger] epochs[k] == Epoch::at(first + k * step)
}

/// Whether `r` are the states of the least and of the greatest value of an event
/// that a search along the samples `s`, in steps of `step` nanoseconds, may give.
pub open spec fn is_minmax<S, P: Extrema<S>>(
    problem: &P,
    s: Seq<Sample<S>>,
    step: int,
    r: (S, S),
) -> bool {
    exists|bounds: (P::Y, P::Y), least_state: S, greatest_state: S, epochs: Vec<Epoch>, evals: Vec<
        (P::Y, S),
    >, found: Extremes<S, P::Y>|
        #![trigger
            call_ensures(P::beyond_all, (problem,), bounds),
            call_ensures(P::zeros, (problem,), least_state),
            call_ensures(P::zeros, (problem,), greatest_state),
            call_ensures(P::evaluate, (problem, epochs), evals),
            scan_yields(
                problem,
                evals@,
                Extremes {
                    least: bounds.0,
                    least_state,
                    greatest: bounds.1,
                    greatest_state,
                },
                found,
            ),
        ]
        {
            &&& call_ensures(P::beyond_all, (problem,), bounds)
            &&& call_ensures(P::zeros, (problem,), least_state)
            &&& call_ensures(P::zeros, (problem,), greatest_state)
            &&& is_grid(epochs@, s.first().epoch@, s.last().epoch@, step)
            &&& call_ensures(P::evaluate, (problem, epochs), evals)
            &&& scan_yields(
                problem,
                evals@,
                Extremes { least: bounds.0, least_state, greatest: bounds.1, greatest_state },
                found,
            )
            &&& r == (found.least_state, found.greatest_state)
        }
}

impl<S: InterpState> Traj<S> {
    /// The states of the least and of the greatest value of an event along the
    /// trajectory, as far as steps of one `precision` show them: the event is
    /// evaluated every `precision` from the first sample to the last.
    pub fn find_minmax<P: Extrema<S>>(&self, problem: &P, precision: Unit) -> (r: Result<
        (S, S),
        NyxError,
    >)
        requires
            self.is_finalized(),
            self@.len() > 0,
            series_fits(
                series_len(self@.first().epoch@, self@.last().epoch@, precision.nanos()),
            ),
        ensures
            r matches Ok(states) && is_minmax(problem, self@, precision.nanos(), states),
    {
        let step = match precision.times(1) {
            Some(step) => step,
            None => vstd::pervasive::unreached(),
        };
        let bounds = problem.beyond_all();
        let least_state = problem.zeros();
        let greatest_state = problem.zeros();
        let mut found = Extremes {
            least: bounds.0,
            least_state,
            greatest: bounds.1,
            greatest_state,
        };
        let ghost from = found;
        let epochs = time_series(self.first_epoch(), self.last_epoch(), step);
        let ghost grid = epochs;
        let evals = problem.evaluate(epochs);
        let mut k: usize = 0;
        assert(evals@.subrange(0, 0) =~= Seq::<(P::Y, S)>::empty());
        while k < evals.len()
            invariant
                k <= evals@.len(),
                scan_yields(problem, evals@.subrange(0, k as int), from, found),
            decreases evals@.len() - k,
        {
            let (y, state) = evals[k];
            let lower = problem.is_less(y, found.least);
            let higher = problem.is_less(found.greatest, y);
            let ghost before = found;
            if lower {
                found.least = y;
                found.least_state = state;
            }
            if higher {
                found.greatest = y;
                found.greatest_state = state;
            }
            proof {
                let next = evals@.subrange(0, k as int + 1);
                assert(next.drop_last() == evals@.subrange(0, k as int));
                assert(next.last() == (y, state));
                assert(scan_yields(problem, next.drop_last(), from, before));
                assert(found == extended(before, next.last().0, next.last().1, lower, higher));
                assert(step_yields(problem, before, next.last(), found));
                assert(scan_yields(problem, next, from, found));
            }
            k = k + 1;
        }
        assert(evals@.subrange(0, k as int) == evals@);
        assert(is_grid(grid@, self@.first().epoch@, self@.last().epoch@, precision.nanos()));
        Ok((found.least_state, found.greatest_state))
    }
}

/// The samples of an optional sample: one or none.
pub open spec fn found_in<S>(found: Option<Sample<S>>) -> Seq<Sample<S>> {
    match found {
        Some(sample) => seq![sample],
        None => Seq::<Sample<S>>::empty(),
    }
}

/// Whether `r` is what a search ends in that found the events `found` between
/// `first` and `last`: the events in the order of their epochs, one for each
/// epoch, and the error that the event `event` was not found where there is none.
pub open spec fn is_collected<S>(
    found: Seq<Sample<S>>,
    first: Epoch,
    last: Epoch,
    event: Seq<char>,
    r: Result<Vec<Sample<S>>, NyxError>,
) -> bool {
    if found.len() == 0 {
        r matches Err(e) && is_event_not_found(e, first, last, event)
    } else {
        r matches Ok(v) && is_finalization_of(v@, found)
    }
}

/// Whether `r` is what the second attempt of a search ends in, which searches
/// about the least and the greatest value of the event, given in `extrema`: a
/// millisecond to either side of each, within the trajectory. Without extrema
/// the event is not found.
pub open spec fn is_second_attempt<S, O: Fn(Epoch, Epoch) -> Option<Sample<S>>>(
    first: Epoch,
    last: Epoch,
    event: Seq<char>,
    search_one: O,
    extrema: Option<(Epoch, Epoch)>,
    r: Result<Vec<Sample<S>>, NyxError>,
) -> bool {
    match extrema {
        None => r matches Err(e) && is_event_not_found(e, first, last, event),
        Some((least, greatest)) => exists|about_least: Option<Sample<S>>, about_greatest: Option<Sample<S>>|
            {
                &&& #[trigger] call_ensures(
                    search_one,
                    (window_low(first, least@), window_high(last, least@)),
                    about_least,
                )
                &&& #[trigger] call_ensures(
                    search_one,
                    (window_low(first, greatest@), window_high(last, greatest@)),
                    about_greatest,
                )
                &&& is_collected(found_in(about_least) + found_in(about_greatest), first, last, event, r)
            },
    }
}

/// Whether `r` is what the search for all events along the samples `s` ends in.
/// The span of the samples is searched in a hundred parts, which `search_all`
/// does; where that finds nothing, `search_one` searches about the extrema of the
/// event, which `extrema` gives.
pub open spec fn is_search_result<
    S,
    A: FnOnce(Vec<(Epoch, Epoch)>) -> Vec<Sample<S>>,
    O: Fn(Epoch, Epoch) -> Option<Sample<S>>,
    X: FnOnce() -> Option<(Epoch, Epoch)>,
>(
    s: Seq<Sample<S>>,
    event: Seq<char>,
    search_all: A,
    search_one: O,
    extrema: X,
    r: Result<Vec<Sample<S>>, NyxError>,
) -> bool {
    let first = s.first().epoch;
    let last = s.last().epoch;
    if s.len() == 1 {
        r matches Err(e) && is_event_not_found(e, first, last, event)
    } else {
        exists|brackets: Vec<(Epoch, Epoch)>, found: Vec<Sample<S>>|
            {
                &&& is_partition(brackets@, first@, last@)
                &&& #[trigger] call_ensures(search_all, (brackets,), found)
                &&& if found@.len() > 0 {
                    is_collected(found@, first, last, event, r)
                } else {
                    exists|least_and_greatest: Option<(Epoch, Epoch)>|
                        #[trigger] call_ensures(extrema, (), least_and_greatest)
                            && is_second_attempt(
                            first,
                            last,
                            event,
                            search_one,
                            least_and_greatest,
                            r,
                        )
                }
            }
    }
}

impl<S: InterpState> Traj<S> {
    /// The events along the trajectory, usually all of them, in the order of their
    /// epochs. The span of the trajectory is searched in a hundred parts:
    /// `search_all` is handed the brackets and returns the events it finds in
    /// them, in any order. Where it finds none, `extrema` is asked for the epochs
    /// of the least and of the greatest value of the event, and `search_one`
    /// searches about each of them. Where that finds nothing either, the event
    /// was not found.
    pub fn find_all<
        A: FnOnce(Vec<(Epoch, Epoch)>) -> Vec<Sample<S>>,
        O: Fn(Epoch, Epoch) -> Option<Sample<S>>,
        X: FnOnce() -> Option<(Epoch, Epoch)>,
    >(&self, event: &str, search_all: A, search_one: O, extrema: X) -> (r: Result<
        Vec<Sample<S>>,
        NyxError,
    >)
        requires
            self.is_finalized(),
            self@.len() > 0,
            forall|brackets: Vec<(Epoch, Epoch)>| call_requires(search_all, (brackets,)),
            forall|low: Epoch, high: Epoch| call_requires(search_one, (low, high)),
            call_requires(extrema, ()),
        ensures
            is_search_result(self@, event@, search_all, search_one, extrema, r),
    {
        let first = self.first_epoch();
        let last = self.last_epoch();
        let brackets = match self.search_brackets(event) {
            Ok(brackets) => brackets,
            Err(error) => {
                return Err(error);
            },
        };
        let ghost partition = brackets;
        let found = search_all(brackets);
        if found.len() > 0 {
            let r = collect_events(found, first, last, event);
            assert(is_partition(partition@, first@, last@) && call_ensures(
                search_all,
                (partition,),
                found,
            ));
            return r;
        }
        let least_and_greatest = extrema();
        let r = match least_and_greatest {
            Some((least, greatest)) => {
                let (low, high) = self.extremum_window(least);
                let about_least = search_one(low, high);
                let (low, high) = self.extremum_window(greatest);
                let about_greatest = search_one(low, high);
                let mut second: Vec<Sample<S>> = Vec::new();
                match about_least {
                    Some(sample) => {
                        second.push(sample);
                    },
                    None => {},
                }
                match about_greatest {
                    Some(sample) => {
                        second.push(sample);
                    },
                    None => {},
                }
                assert(second@ == found_in(about_least) + found_in(about_greatest));
                let r = collect_events(second, first, last, event);
                assert(is_second_attempt(first, last, event@, search_one, least_and_greatest, r));
                r
            },
            None => Err(
                NyxError::Trajectory(
                    TrajError::EventNotFound { start: first, end: last, event: event.to_owned() },
                ),
            ),
        };
        assert(is_partition(partition@, first@, last@) && call_ensures(
            search_all,
            (partition,),
            found,
        ) && call_ensures(extrema, (), least_and_greatest));
        r
    }
}

} // verus!
