use nyx_space::errors::{NyxError, TrajError};
use nyx_space::events::{Brent, Extrema, RootSearch, Trial};
use nyx_space::params::StateParameter;
use nyx_space::time::{Duration, Epoch, Unit};
use nyx_space::trajectory::{InterpState, Sample, Traj};

/// A state that holds nothing but its time, in seconds.
#[derive(Clone, Copy, Debug, PartialEq)]
struct Tick {
    epoch: Epoch,
    t: f64,
}

fn nanoseconds(e: Epoch) -> i64 {
    let (c, n) = e.to_parts();
    assert_eq!(c, 0);
    n as i64
}

fn at_seconds(t: f64) -> Epoch {
    Epoch::from_tai_nanoseconds((t * 1e9).round() as i64)
}

impl InterpState for Tick {
    fn params() -> Vec<StateParameter> {
        Vec::new()
    }

    fn epoch(&self) -> Epoch {
        self.epoch
    }

    fn interpolate(&self, epoch: Epoch, window: &Vec<Sample<Tick>>) -> Result<Tick, NyxError> {
        assert!(window.len() >= 2);
        Ok(Tick { epoch, t: nanoseconds(epoch) as f64 * 1e-9 })
    }
}

fn ticks(from: i64, to: i64) -> Traj<Tick> {
    let mut traj = Traj::new();
    for s in from..=to {
        traj.append(Tick { epoch: Epoch::from_tai_nanoseconds(s * 1_000_000_000), t: s as f64 });
    }
    traj.finalize();
    traj
}

/// The arithmetic of a search along a trajectory of ticks, in seconds from its
/// start.
struct Search<'a> {
    traj: &'a Traj<Tick>,
    event: &'a dyn Fn(&Tick) -> f64,
    start: f64,
    epoch_precision: f64,
    value_precision: f64,
}

impl RootSearch<Tick> for Search<'_> {
    type X = f64;
    type Y = f64;

    fn sample(&self, x: f64) -> Result<(Tick, f64), NyxError> {
        let tick = self.traj.at(at_seconds(self.start + x))?;
        let y = (self.event)(&tick);
        if y.is_nan() {
            return Err(NyxError::MathDomain("the event is not a number".to_string()));
        }
        Ok((tick, y))
    }

    fn is_root(&self, y: f64) -> bool {
        y.abs() <= self.value_precision
    }

    fn is_within(&self, y: f64) -> bool {
        y.abs() < self.value_precision
    }

    fn is_collapsed(&self, x1: f64, x2: f64) -> bool {
        (x1 - x2).abs() <= self.epoch_precision
    }

    fn trial(&self, state: &Brent<f64, f64>) -> (f64, Trial) {
        let Brent { xa, ya, xb, yb, xc, yc, xd, .. } = *state;
        let s = if (ya - yc).abs() > f64::EPSILON && (yb - yc).abs() > f64::EPSILON {
            xa * yb * yc / ((ya - yb) * (ya - yc))
                + xb * ya * yc / ((yb - ya) * (yb - yc))
                + xc * ya * yb / ((yc - ya) * (yc - yb))
        } else {
            xb - yb * (xb - xa) / (yb - ya)
        };
        let trial = Trial {
            leaves_bracket: (s - xb) * (s - (3.0 * xa + xb) / 4.0) > 0.0,
            slow_after_bisection: (s - xb).abs() >= (xb - xc).abs() / 2.0,
            slow_after_interpolation: (s - xb).abs() >= (xc - xd).abs() / 2.0,
            stalled_after_bisection: self.is_collapsed(xb, xc),
            stalled_after_interpolation: self.is_collapsed(xc, xd),
        };
        (s, trial)
    }

    fn middle(&self, xa: f64, xb: f64) -> f64 {
        (xa + xb) / 2.0
    }

    fn changes_sign(&self, ya: f64, ys: f64) -> bool {
        ya * ys < 0.0
    }

    fn is_larger(&self, y1: f64, y2: f64) -> bool {
        y1.abs() > y2.abs()
    }
}

impl Extrema<Tick> for Search<'_> {
    type Y = f64;

    fn evaluate(&self, epochs: Vec<Epoch>) -> Vec<(f64, Tick)> {
        // In the reverse order, as the epochs may come back in any.
        epochs
            .into_iter()
            .rev()
            .map(|epoch| {
                let tick = self.traj.at(epoch).unwrap();
                ((self.event)(&tick), tick)
            })
            .collect()
    }

    fn is_less(&self, a: f64, b: f64) -> bool {
        a < b
    }

    fn beyond_all(&self) -> (f64, f64) {
        (f64::INFINITY, f64::NEG_INFINITY)
    }

    fn zeros(&self) -> Tick {
        Tick { epoch: Epoch::from_tai_nanoseconds(0), t: 0.0 }
    }
}

fn find_minmax(traj: &Traj<Tick>, event: &dyn Fn(&Tick) -> f64, precision: Unit) -> (Tick, Tick) {
    let search = Search { traj, event, start: 0.0, epoch_precision: 0.0, value_precision: 0.0 };
    traj.find_minmax(&search, precision).unwrap()
}

/// The search for the root of `event` between `start` and `end`.
fn find_bracketed(
    traj: &Traj<Tick>,
    start: Epoch,
    end: Epoch,
    event: &dyn Fn(&Tick) -> f64,
    epoch_precision: f64,
    value_precision: f64,
) -> Result<Tick, NyxError> {
    let search = Search {
        traj,
        event,
        start: nanoseconds(start) as f64 * 1e-9,
        epoch_precision,
        value_precision,
    };
    let span = (nanoseconds(end) - nanoseconds(start)) as f64 * 1e-9;
    nyx_space::events::find_bracketed(&search, 0.0, span, start, end, "event")
}

fn sample_of(tick: Tick) -> Sample<Tick> {
    Sample { epoch: tick.epoch, state: tick }
}

fn find_all(
    traj: &Traj<Tick>,
    event: &dyn Fn(&Tick) -> f64,
    extrema: Option<(Epoch, Epoch)>,
) -> Result<Vec<Tick>, NyxError> {
    let events = traj.find_all(
        "event",
        |brackets: Vec<(Epoch, Epoch)>| {
            brackets
                .into_iter()
                .filter_map(|(low, high)| find_bracketed(traj, low, high, event, 1e-6, 1e-9).ok())
                .map(sample_of)
                .collect()
        },
        |low: Epoch, high: Epoch| {
            find_bracketed(traj, low, high, event, 1e-7, 1e-6).ok().map(sample_of)
        },
        || extrema,
    )?;
    Ok(events.into_iter().map(|s| s.state).collect())
}

#[test]
fn the_root_of_a_line_is_found() {
    // The event is zero at 1234.5 s, in a trajectory from ten seconds before to
    // ten seconds after.
    let t0 = 1234.5;
    let traj = ticks(1224, 1245);
    let event = |tick: &Tick| tick.t - t0;
    let found = find_bracketed(&traj, at_seconds(1224.5), at_seconds(1244.5), &event, 1e-3, 1e-9)
        .unwrap();
    assert!((found.t - t0).abs() <= 1e-3);
}

#[test]
fn the_root_of_a_curve_is_found() {
    let traj = ticks(0, 20);
    let event = |tick: &Tick| (tick.t - 7.25).powi(3) + 0.5 * (tick.t - 7.25);
    let found = find_bracketed(&traj, at_seconds(0.0), at_seconds(20.0), &event, 1e-6, 1e-9).unwrap();
    assert!((found.t - 7.25).abs() <= 1e-6);
}

#[test]
fn a_root_at_an_end_of_the_bracket_is_the_end() {
    let traj = ticks(0, 20);
    let event = |tick: &Tick| tick.t - 5.0;
    let found = find_bracketed(&traj, at_seconds(5.0), at_seconds(9.0), &event, 1e-3, 1e-9).unwrap();
    assert_eq!(found.t, 5.0);
    let found = find_bracketed(&traj, at_seconds(1.0), at_seconds(5.0), &event, 1e-3, 1e-9).unwrap();
    assert_eq!(found.t, 5.0);
}

#[test]
fn an_event_outside_the_bracket_is_not_found() {
    let traj = ticks(0, 20);
    let event = |tick: &Tick| tick.t + 5.0;
    match find_bracketed(&traj, at_seconds(2.0), at_seconds(12.0), &event, 1e-3, 1e-9) {
        Err(NyxError::Trajectory(TrajError::EventNotFound { start, end, event })) => {
            assert_eq!(start, at_seconds(2.0));
            assert_eq!(end, at_seconds(12.0));
            assert_eq!(event, "event");
        }
        other => panic!("{:?}", other),
    }
}

#[test]
fn a_search_too_precise_gives_up() {
    let traj = ticks(0, 20);
    // The value is never within its precision and the bracket never collapses.
    let event = |tick: &Tick| if tick.t < 7.3 { -1.0 } else { 1.0 };
    match find_bracketed(&traj, at_seconds(0.0), at_seconds(20.0), &event, -1.0, 0.0) {
        Err(NyxError::MaxIterReached(what)) => {
            assert_eq!(what, "Brent solver failed after 50 iterations")
        }
        other => panic!("{:?}", other),
    }
}

#[test]
fn a_bracket_beyond_the_trajectory_has_no_data() {
    let traj = ticks(0, 20);
    let event = |tick: &Tick| tick.t - 5.0;
    assert!(matches!(
        find_bracketed(&traj, at_seconds(1.0), at_seconds(21.0), &event, 1e-3, 1e-9),
        Err(NyxError::Trajectory(TrajError::NoInterpolationData(_)))
    ));
}

#[test]
fn all_zero_crossings_of_a_sine_are_found() {
    // A thousand seconds of one sample per second; the event has a period of two
    // hundred seconds, and so a zero every hundred.
    let traj = ticks(0, 1000);
    let event = |tick: &Tick| (2.0 * std::f64::consts::PI * tick.t / 200.0).sin();
    let found = find_all(&traj, &event, None).unwrap();
    assert_eq!(found.len(), 11);
    for (k, tick) in found.iter().enumerate() {
        assert!((tick.t - 100.0 * k as f64).abs() < 1e-5);
    }
    for pair in found.windows(2) {
        assert!(pair[0].epoch < pair[1].epoch);
    }
}

#[test]
fn crossings_between_the_samples_are_found() {
    let traj = ticks(0, 1000);
    let event = |tick: &Tick| (2.0 * std::f64::consts::PI * (tick.t - 33.3) / 200.0).sin();
    let found = find_all(&traj, &event, None).unwrap();
    let expected = [33.3, 133.3, 233.3, 333.3, 433.3, 533.3, 633.3, 733.3, 833.3, 933.3];
    assert_eq!(found.len(), expected.len());
    for (tick, t) in found.iter().zip(expected.iter()) {
        assert!((tick.t - t).abs() < 1e-5);
    }
}

#[test]
fn the_search_falls_back_on_the_extrema() {
    let traj = ticks(0, 1000);
    // The event touches zero about 500.0004 s and is positive elsewhere: no part
    // of the trajectory brackets a change of sign.
    let event = |tick: &Tick| (tick.t - 500.0004).abs() - 1e-7;
    assert!(matches!(
        find_all(&traj, &event, None),
        Err(NyxError::Trajectory(TrajError::EventNotFound { .. }))
    ));
    let least = at_seconds(500.0);
    let greatest = at_seconds(0.0);
    let found = find_all(&traj, &event, Some((least, greatest))).unwrap();
    assert_eq!(found.len(), 1);
    assert!((found[0].t - 500.0004).abs() < 1e-6);
}

#[test]
fn an_event_that_never_happens_is_not_found() {
    let traj = ticks(0, 1000);
    let event = |tick: &Tick| tick.t + 1.0;
    for extrema in [None, Some((at_seconds(0.0), at_seconds(1000.0)))] {
        match find_all(&traj, &event, extrema) {
            Err(NyxError::Trajectory(TrajError::EventNotFound { start, end, event })) => {
                assert_eq!(start, at_seconds(0.0));
                assert_eq!(end, at_seconds(1000.0));
                assert_eq!(event, "event");
            }
            other => panic!("{:?}", other),
        }
    }
}

#[test]
fn a_trajectory_of_one_sample_has_no_events() {
    let traj = ticks(5, 5);
    let event = |tick: &Tick| tick.t - 5.0;
    assert!(matches!(
        find_all(&traj, &event, Some((at_seconds(5.0), at_seconds(5.0)))),
        Err(NyxError::Trajectory(TrajError::EventNotFound { .. }))
    ));
}

#[test]
fn durations_of_trajectories() {
    assert_eq!(ticks(3, 10).duration(), Duration::from_nanoseconds(7_000_000_000));
    assert_eq!(ticks(3, 3).duration(), Duration::zero());
    let copy = ticks(0, 4).clone();
    assert_eq!(copy.len(), 5);
    assert!(copy.finalized());
    let empty: Traj<Tick> = Traj::default();
    assert!(empty.is_empty());
}

#[test]
fn the_extrema_of_a_parabola_are_found() {
    let traj = ticks(0, 20);
    let event = |tick: &Tick| (tick.t - 7.0).powi(2);
    let (least, greatest) = find_minmax(&traj, &event, Unit::Second);
    assert_eq!(least.t, 7.0);
    assert_eq!(greatest.t, 20.0);
    let event = |tick: &Tick| -(tick.t - 7.26).powi(2);
    let (least, greatest) = find_minmax(&traj, &event, Unit::Millisecond);
    assert_eq!(least.t, 20.0);
    assert!((greatest.t - 7.26).abs() < 1e-9);
}

#[test]
fn the_extrema_are_as_precise_as_the_step() {
    let traj = ticks(0, 20);
    let event = |tick: &Tick| (tick.t - 7.4).abs();
    let (least, greatest) = find_minmax(&traj, &event, Unit::Second);
    assert_eq!(least.t, 7.0);
    assert_eq!(greatest.t, 20.0);
    let (least, _) = find_minmax(&traj, &event, Unit::Minute);
    assert_eq!(least.t, 0.0);
}

#[test]
fn the_extrema_of_a_constant_are_the_first_value_seen() {
    let traj = ticks(0, 5);
    let event = |_: &Tick| 1.0;
    // The epochs come back last first, and no later value is less or greater.
    let (least, greatest) = find_minmax(&traj, &event, Unit::Second);
    assert_eq!(least.t, 5.0);
    assert_eq!(greatest.t, 5.0);
}

#[test]
fn the_extrema_of_nothing_that_compares_are_zeros() {
    let traj = ticks(3, 5);
    let event = |_: &Tick| f64::NAN;
    let (least, greatest) = find_minmax(&traj, &event, Unit::Second);
    assert_eq!(least, Tick { epoch: Epoch::from_tai_nanoseconds(0), t: 0.0 });
    assert_eq!(greatest, least);
}

#[test]
fn the_search_falls_back_on_the_extrema_it_finds() {
    let traj = ticks(0, 1000);
    let event = |tick: &Tick| (tick.t - 500.0004).abs() - 1e-7;
    let (least, greatest) = find_minmax(&traj, &event, Unit::Second);
    let found = find_all(&traj, &event, Some((least.epoch, greatest.epoch))).unwrap();
    assert_eq!(found.len(), 1);
    assert!((found[0].t - 500.0004).abs() < 1e-6);
}

#[test]
fn an_event_that_is_no_number_is_an_error_of_its_own() {
    let traj = ticks(0, 20);
    // No number at the start of the bracket.
    let event = |tick: &Tick| if tick.t < 1.0 { f64::NAN } else { tick.t - 5.0 };
    match find_bracketed(&traj, at_seconds(0.0), at_seconds(20.0), &event, 1e-3, 1e-9) {
        Err(NyxError::MathDomain(what)) => assert_eq!(what, "the event is not a number"),
        other => panic!("{:?}", other),
    }
    // No number at a trial abscissa.
    let event = |tick: &Tick| if tick.t > 1.0 && tick.t < 19.0 { f64::NAN } else { tick.t - 5.0 };
    assert!(matches!(
        find_bracketed(&traj, at_seconds(0.0), at_seconds(20.0), &event, 1e-3, 1e-9),
        Err(NyxError::MathDomain(_))
    ));
}
