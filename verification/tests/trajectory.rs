use nyx_space::errors::{NyxError, TrajError};
use nyx_space::params::StateParameter;
use nyx_space::time::{Duration, Epoch, Unit};
use nyx_space::trajectory::{collect_events, InterpState, Sample, Traj};

/// A state on a line, with its speed.
#[derive(Clone, Copy, Debug, PartialEq)]
struct Point {
    epoch: Epoch,
    x: f64,
    vx: f64,
    /// The places of the window that rebuilt the state, as (first second, number of samples).
    window: (i64, usize),
}

fn seconds(s: i64) -> Epoch {
    Epoch::from_tai_nanoseconds(s * 1_000_000_000)
}

fn point(s: i64, x: f64) -> Point {
    Point { epoch: seconds(s), x, vx: 1.0, window: (0, 0) }
}

fn to_seconds(e: Epoch) -> f64 {
    let (c, n) = e.to_parts();
    assert_eq!(c, 0);
    n as f64 * 1e-9
}

impl InterpState for Point {
    fn params() -> Vec<StateParameter> {
        vec![StateParameter::X]
    }

    fn epoch(&self) -> Epoch {
        self.epoch
    }

    fn interpolate(&self, epoch: Epoch, window: &Vec<Sample<Point>>) -> Result<Point, NyxError> {
        if window.len() < 2 {
            return Err(NyxError::Trajectory(TrajError::NoInterpolationData(epoch)));
        }
        let t = to_seconds(epoch);
        let mut before = window[0];
        let mut after = window[window.len() - 1];
        for sample in window {
            if sample.epoch < epoch {
                before = *sample;
            }
        }
        for sample in window.iter().rev() {
            if sample.epoch > epoch {
                after = *sample;
            }
        }
        let t0 = to_seconds(before.epoch);
        let t1 = to_seconds(after.epoch);
        let w = (t - t0) / (t1 - t0);
        Ok(Point {
            epoch,
            x: before.state.x + w * (after.state.x - before.state.x),
            vx: (after.state.x - before.state.x) / (t1 - t0),
            window: ((to_seconds(window[0].epoch)) as i64, window.len()),
        })
    }
}

fn line(from: i64, to: i64) -> Traj<Point> {
    let mut traj = Traj::new();
    for s in from..=to {
        traj.append(point(s, 2.0 * s as f64));
    }
    traj.finalize();
    traj
}

#[test]
fn new_trajectory_is_empty_and_finalized() {
    let traj: Traj<Point> = Traj::new();
    assert!(traj.is_empty());
    assert_eq!(traj.len(), 0);
    assert!(traj.finalized());
    assert!(traj.name().is_none());
}

#[test]
fn append_makes_the_trajectory_dirty() {
    let mut traj = Traj::new();
    traj.append(point(3, 1.0));
    assert!(!traj.finalized());
    assert_eq!(traj.len(), 1);
    traj.finalize();
    assert!(traj.finalized());
    traj.push(seconds(4), point(4, 2.0));
    assert!(!traj.finalized());
}

#[test]
fn finalize_sorts_by_epoch() {
    let mut traj = Traj::new();
    for s in [5, 1, 4, 2, 3] {
        traj.append(point(s, s as f64));
    }
    traj.finalize();
    let epochs: Vec<Epoch> = traj.samples().iter().map(|s| s.epoch).collect();
    assert_eq!(epochs, vec![seconds(1), seconds(2), seconds(3), seconds(4), seconds(5)]);
    assert_eq!(traj.first().x, 1.0);
    assert_eq!(traj.last().x, 5.0);
    assert_eq!(traj.first_epoch(), seconds(1));
    assert_eq!(traj.last_epoch(), seconds(5));
}

#[test]
fn finalize_sorts_epochs_before_the_reference() {
    let mut traj = Traj::new();
    for s in [2, -3, 0, -1, 1] {
        traj.append(point(s, s as f64));
    }
    traj.finalize();
    let xs: Vec<f64> = traj.samples().iter().map(|s| s.state.x).collect();
    assert_eq!(xs, vec![-3.0, -1.0, 0.0, 1.0, 2.0]);
}

#[test]
fn finalize_keeps_the_first_sample_of_an_epoch() {
    let mut traj = Traj::new();
    traj.append(point(2, 20.0));
    traj.append(point(1, 10.0));
    traj.append(point(2, 21.0));
    traj.append(point(1, 11.0));
    traj.append(point(2, 22.0));
    traj.finalize();
    assert_eq!(traj.len(), 2);
    assert_eq!(traj.get(0).state.x, 10.0);
    assert_eq!(traj.get(1).state.x, 20.0);
}

#[test]
fn two_samples_at_one_epoch_leave_one() {
    let mut traj = Traj::new();
    traj.append(point(7, 1.0));
    traj.append(point(7, 2.0));
    traj.finalize();
    assert_eq!(traj.len(), 1);
    assert_eq!(traj.get(0).epoch, seconds(7));
    assert_eq!(traj.get(0).state.x, 1.0);
}

#[test]
fn finalize_twice_is_finalize_once() {
    let mut traj = Traj::new();
    for s in [9, 3, 3, 7, 1, 9, 2] {
        traj.append(point(s, s as f64));
    }
    traj.finalize();
    let once: Vec<Sample<Point>> = traj.samples().clone();
    traj.finalize();
    let twice: Vec<Sample<Point>> = traj.samples().clone();
    assert_eq!(once.len(), 5);
    assert_eq!(once.len(), twice.len());
    for (a, b) in once.iter().zip(twice.iter()) {
        assert_eq!(a.epoch, b.epoch);
        assert_eq!(a.state, b.state);
    }
}

#[test]
fn at_the_epoch_of_a_sample_returns_the_sample() {
    let traj = line(0, 20);
    for s in 0..=20 {
        let state = traj.at(seconds(s)).unwrap();
        assert_eq!(state, point(s, 2.0 * s as f64));
    }
}

#[test]
fn at_outside_the_span_has_no_data() {
    let traj = line(5, 10);
    for epoch in [seconds(4), seconds(11), seconds(-100), Epoch::from_tai_nanoseconds(4_999_999_999)] {
        match traj.at(epoch) {
            Err(NyxError::Trajectory(TrajError::NoInterpolationData(e))) => assert_eq!(e, epoch),
            other => panic!("{:?}", other),
        }
    }
}

#[test]
fn at_of_an_empty_trajectory_has_no_data() {
    let traj: Traj<Point> = Traj::new();
    assert!(matches!(
        traj.at(seconds(0)),
        Err(NyxError::Trajectory(TrajError::NoInterpolationData(_)))
    ));
}

#[test]
fn at_between_samples_interpolates() {
    let traj = line(0, 20);
    let epoch = Epoch::from_tai_nanoseconds(10_500_000_000);
    let state = traj.at(epoch).unwrap();
    assert_eq!(state.epoch, epoch);
    assert!((state.x - 21.0).abs() < 1e-9);
    assert!((state.vx - 2.0).abs() < 1e-9);
}

#[test]
fn window_is_centred_on_the_query() {
    let traj = line(0, 20);
    // Between the samples at 10 s and 11 s the insertion place is 11: the window
    // begins three samples earlier and holds six.
    let state = traj.at(Epoch::from_tai_nanoseconds(10_250_000_000)).unwrap();
    assert_eq!(state.window, (8, 6));
}

#[test]
fn window_at_the_beginning_is_not_shifted() {
    let traj = line(0, 20);
    let state = traj.at(Epoch::from_tai_nanoseconds(500_000_000)).unwrap();
    assert_eq!(state.window, (0, 6));
    let state = traj.at(Epoch::from_tai_nanoseconds(2_500_000_000)).unwrap();
    assert_eq!(state.window, (0, 6));
    let state = traj.at(Epoch::from_tai_nanoseconds(3_500_000_000)).unwrap();
    assert_eq!(state.window, (1, 6));
}

#[test]
fn window_at_the_end_is_shifted_left() {
    let traj = line(0, 20);
    let state = traj.at(Epoch::from_tai_nanoseconds(19_500_000_000)).unwrap();
    assert_eq!(state.window, (15, 6));
    let state = traj.at(Epoch::from_tai_nanoseconds(17_500_000_000)).unwrap();
    assert_eq!(state.window, (15, 6));
    let state = traj.at(Epoch::from_tai_nanoseconds(16_500_000_000)).unwrap();
    assert_eq!(state.window, (14, 6));
}

#[test]
fn window_of_a_short_trajectory_is_the_trajectory() {
    let traj = line(0, 3);
    let state = traj.at(Epoch::from_tai_nanoseconds(1_500_000_000)).unwrap();
    assert_eq!(state.window, (0, 4));
}

#[test]
fn merge_keeps_all_epochs_and_reports_the_gap() {
    let a = line(0, 10);
    let b = line(20, 30);
    let gap = a.gap_with(&b);
    assert_eq!(gap, Some((seconds(10), Duration::from_nanoseconds(10_000_000_000))));
    assert_eq!(b.gap_with(&a), gap);
    let merged = a.add(&b);
    assert!(merged.finalized());
    assert_eq!(merged.len(), 22);
    assert_eq!(merged.first_epoch(), seconds(0));
    assert_eq!(merged.last_epoch(), seconds(30));
    // Within the gap the nearest samples serve: three of each side.
    let state = merged.at(seconds(15)).unwrap();
    assert_eq!(state.epoch, seconds(15));
    assert_eq!(state.window, (8, 6));
    assert!((state.x - 30.0).abs() < 1e-9);
    let again = merged.at(seconds(15)).unwrap();
    assert_eq!(state, again);
}

#[test]
fn merge_of_overlapping_trajectories_has_no_gap() {
    let a = line(0, 10);
    let b = line(5, 15);
    assert_eq!(a.gap_with(&b), None);
    assert_eq!(b.gap_with(&a), None);
    let c = line(10, 12);
    assert_eq!(a.gap_with(&c), None);
    let empty: Traj<Point> = Traj::new();
    assert_eq!(a.gap_with(&empty), None);
    assert_eq!(empty.gap_with(&a), None);
}

#[test]
fn merge_prefers_the_samples_of_the_left_trajectory() {
    let mut a = Traj::new();
    a.append(point(1, 100.0));
    a.append(point(2, 200.0));
    a.finalize();
    let mut b = Traj::new();
    b.append(point(2, -200.0));
    b.append(point(0, -0.5));
    b.finalize();
    let mut merged = a.add(&b);
    assert_eq!(merged.len(), 3);
    assert_eq!(merged.get(0).state.x, -0.5);
    assert_eq!(merged.get(1).state.x, 100.0);
    assert_eq!(merged.get(2).state.x, 200.0);
    merged.add_assign(&b);
    assert_eq!(merged.len(), 3);
    assert_eq!(merged.get(2).state.x, 200.0);
}

#[test]
fn merge_keeps_the_name() {
    let mut a = line(0, 1);
    a.set_name(Some("outbound".to_string()));
    let merged = a.add(&line(2, 3));
    assert_eq!(merged.name().as_deref(), Some("outbound"));
}

#[test]
fn resampled_adds_the_midpoints() {
    let traj = line(0, 4);
    let pre = traj.resampled();
    assert_eq!(pre.len(), 9);
    for (k, sample) in pre.iter().enumerate() {
        assert_eq!(sample.epoch, Epoch::from_tai_nanoseconds(k as i64 * 500_000_000));
        assert!((sample.state.x - k as f64).abs() < 1e-9);
    }
}

#[test]
fn resampled_skips_a_midpoint_that_is_the_sample() {
    let mut traj = Traj::new();
    traj.push(Epoch::from_tai_nanoseconds(0), point(0, 0.0));
    traj.push(Epoch::from_tai_nanoseconds(1), point(0, 1.0));
    traj.push(Epoch::from_tai_nanoseconds(4), point(0, 4.0));
    traj.finalize();
    let pre = traj.resampled();
    let epochs: Vec<Epoch> = pre.iter().map(|s| s.epoch).collect();
    assert_eq!(
        epochs,
        vec![
            Epoch::from_tai_nanoseconds(0),
            Epoch::from_tai_nanoseconds(1),
            Epoch::from_tai_nanoseconds(2),
            Epoch::from_tai_nanoseconds(4),
        ]
    );
}

#[test]
fn to_frame_of_an_empty_trajectory_fails() {
    let traj: Traj<Point> = Traj::new();
    match traj.to_frame(|p: &Point| *p) {
        Err(NyxError::Trajectory(TrajError::CreationError(why))) => {
            assert_eq!(why, "No trajectory to convert")
        }
        _ => panic!("an empty trajectory was converted"),
    }
}

#[test]
fn to_frame_and_back_gives_the_samples_back() {
    let traj = line(0, 10);
    let there = |p: &Point| Point { x: 3.0 * p.x + 7.0, ..*p };
    let back = |p: &Point| Point { x: (p.x - 7.0) / 3.0, ..*p };
    let moved = traj.to_frame(there).unwrap();
    assert_eq!(moved.len(), 21);
    assert_eq!(moved.at(seconds(2)).unwrap().x, 19.0);
    let returned = moved.to_frame(back).unwrap();
    assert_eq!(returned.len(), 41);
    for sample in traj.samples() {
        let state = returned.at(sample.epoch).unwrap();
        assert!((state.x - sample.state.x).abs() < 1e-9);
    }
}

#[test]
fn collect_events_orders_and_dedups() {
    let found = vec![
        Sample { epoch: seconds(30), state: point(30, 3.0) },
        Sample { epoch: seconds(10), state: point(10, 1.0) },
        Sample { epoch: seconds(30), state: point(30, 3.5) },
        Sample { epoch: seconds(20), state: point(20, 2.0) },
    ];
    let events = collect_events(found, seconds(0), seconds(40), "apoapsis").unwrap();
    let xs: Vec<f64> = events.iter().map(|s| s.state.x).collect();
    assert_eq!(xs, vec![1.0, 2.0, 3.0]);
}

#[test]
fn collect_events_of_nothing_is_event_not_found() {
    let found: Vec<Sample<Point>> = Vec::new();
    match collect_events(found, seconds(1), seconds(2), "periapsis") {
        Err(NyxError::Trajectory(TrajError::EventNotFound { start, end, event })) => {
            assert_eq!(start, seconds(1));
            assert_eq!(end, seconds(2));
            assert_eq!(event, "periapsis");
        }
        _ => panic!("an event was found"),
    }
}

#[test]
fn every_steps_through_the_trajectory() {
    let traj = line(0, 10);
    let mut states = traj.every(Duration::from_nanoseconds(2_500_000_000));
    assert_eq!(states.remaining(), 5);
    let mut xs = Vec::new();
    while states.remaining() > 0 {
        xs.push(states.next().unwrap().x);
    }
    assert_eq!(xs.len(), 5);
    for (k, x) in xs.iter().enumerate() {
        assert!((x - 5.0 * k as f64).abs() < 1e-9);
    }
    assert!(states.next().is_none());
    states.restart();
    assert_eq!(states.remaining(), 5);
    assert_eq!(states.next().unwrap().x, 0.0);
}

#[test]
fn every_between_includes_both_ends() {
    let traj = line(0, 10);
    let step = Unit::Second.times(2).unwrap();
    let mut states = traj.every_between(step, seconds(2), seconds(8));
    let mut epochs = Vec::new();
    while let Some(state) = states.next() {
        epochs.push(state.epoch);
    }
    assert_eq!(epochs, vec![seconds(2), seconds(4), seconds(6), seconds(8)]);
}

#[test]
fn every_between_gives_none_outside_the_trajectory() {
    let traj = line(0, 4);
    let step = Unit::Second.times(2).unwrap();
    let mut states = traj.every_between(step, seconds(2), seconds(8));
    assert_eq!(states.remaining(), 4);
    assert_eq!(states.next().unwrap().epoch, seconds(2));
    assert_eq!(states.next().unwrap().epoch, seconds(4));
    assert!(states.next().is_none());
    assert_eq!(states.remaining(), 1);
    assert!(states.next().is_none());
    assert_eq!(states.remaining(), 0);
}

#[test]
fn every_between_of_a_reversed_span_is_empty() {
    let traj = line(0, 4);
    let mut states = traj.every_between(Unit::Second.times(1).unwrap(), seconds(3), seconds(1));
    assert_eq!(states.remaining(), 0);
    assert!(states.next().is_none());
}

#[test]
fn search_brackets_cover_the_span_in_a_hundred_parts() {
    let traj = line(0, 1000);
    let brackets = traj.search_brackets("zero crossing").unwrap();
    assert_eq!(brackets.len(), 100);
    for (k, (low, high)) in brackets.iter().enumerate() {
        assert_eq!(*low, seconds(10 * k as i64));
        assert_eq!(*high, seconds(10 * (k as i64 + 1)));
    }
}

#[test]
fn search_brackets_round_the_width_down() {
    // 999 s in a hundred parts of 9.99 s.
    let traj = line(1, 1000);
    let brackets = traj.search_brackets("zero crossing").unwrap();
    assert_eq!(brackets.len(), 100);
    assert_eq!(brackets[0].0, seconds(1));
    assert_eq!(brackets[0].1, Epoch::from_tai_nanoseconds(10_990_000_000));
    assert_eq!(brackets[99].1, seconds(1000));
    // 199 ns in parts of 1 ns.
    let mut short = Traj::new();
    short.push(Epoch::from_tai_nanoseconds(0), point(0, 0.0));
    short.push(Epoch::from_tai_nanoseconds(199), point(0, 1.0));
    short.finalize();
    let brackets = short.search_brackets("zero crossing").unwrap();
    assert_eq!(brackets.len(), 199);
    assert_eq!(brackets[198], (Epoch::from_tai_nanoseconds(198), Epoch::from_tai_nanoseconds(199)));
}

#[test]
fn search_brackets_of_a_span_too_short_are_none() {
    let mut short = Traj::new();
    short.push(Epoch::from_tai_nanoseconds(0), point(0, 0.0));
    short.push(Epoch::from_tai_nanoseconds(99), point(0, 1.0));
    short.finalize();
    assert!(short.search_brackets("zero crossing").unwrap().is_empty());
}

#[test]
fn search_brackets_of_one_sample_is_event_not_found() {
    let traj = line(5, 5);
    match traj.search_brackets("eclipse") {
        Err(NyxError::Trajectory(TrajError::EventNotFound { start, end, event })) => {
            assert_eq!(start, seconds(5));
            assert_eq!(end, seconds(5));
            assert_eq!(event, "eclipse");
        }
        _ => panic!("brackets of one sample"),
    }
}

#[test]
fn extremum_window_is_a_millisecond_to_either_side() {
    let traj = line(0, 10);
    let (low, high) = traj.extremum_window(seconds(5));
    assert_eq!(low, Epoch::from_tai_nanoseconds(4_999_000_000));
    assert_eq!(high, Epoch::from_tai_nanoseconds(5_001_000_000));
}

#[test]
fn extremum_window_stays_within_the_trajectory() {
    let traj = line(0, 10);
    assert_eq!(traj.extremum_window(seconds(0)), (seconds(0), Epoch::from_tai_nanoseconds(1_000_000)));
    assert_eq!(
        traj.extremum_window(seconds(10)),
        (Epoch::from_tai_nanoseconds(9_999_000_000), seconds(10))
    );
    assert_eq!(
        traj.extremum_window(Epoch::from_tai_nanoseconds(500_000)),
        (seconds(0), Epoch::from_tai_nanoseconds(1_500_000))
    );
    assert_eq!(traj.extremum_window(seconds(-3)), (seconds(0), Epoch::from_tai_nanoseconds(-2_999_000_000)));
    assert_eq!(traj.extremum_window(seconds(30)), (Epoch::from_tai_nanoseconds(29_999_000_000), seconds(10)));
}

#[test]
fn samples_can_be_taken_out() {
    let traj = Traj::from_samples(vec![
        Sample { epoch: seconds(2), state: point(2, 2.0) },
        Sample { epoch: seconds(1), state: point(1, 1.0) },
    ]);
    assert!(!traj.finalized());
    let samples = traj.into_samples();
    assert_eq!(samples.len(), 2);
    assert_eq!(samples[0].epoch, seconds(2));
    assert_eq!(Point::params(), vec![StateParameter::X]);
}
