use track_runner::runner::{Runner, RunnerFlags, RunnerSnapshot, RunnerState, SplitTimes};

fn curve_780() -> SplitTimes {
    SplitTimes::with_jitter(780_000, [10_000, 10_000, 10_000, 10_000])
}

fn resting_runner(distance: i64, curve: SplitTimes) -> RunnerState {
    RunnerState {
        id: 3,
        name: String::from("Runner 4"),
        distance,
        lane_position: 1_000_000,
        current_speed: 0,
        target_speed: 0,
        animation_phase: 0,
        stride_multiplier: 1_000_000,
        split_times: curve,
        flags: RunnerFlags { finished: false, squished: false },
    }
}

#[test]
fn jitter_scales_each_checkpoint() {
    let c = SplitTimes::with_jitter(1_000_000, [9_800, 10_200, 10_000, 9_900]);
    assert_eq!(c.splits, [196_000, 408_000, 600_000, 792_000, 1_000_000]);
    assert_eq!(c.final_time, 1_000_000);
}

#[test]
fn random_curve_ends_exactly_at_finish_and_increases() {
    for f in [780_000u64, 1_234_567, 2_099_999, 10] {
        for _ in 0..50 {
            let c = SplitTimes::from_finish_time(f);
            assert_eq!(c.splits[4], f);
            assert_eq!(c.final_time, f);
            for i in 0..4 {
                assert!(c.splits[i] < c.splits[i + 1]);
            }
            assert!(c.splits[0] > 0);
        }
    }
}

#[test]
fn target_speed_by_segment() {
    let c = curve_780();
    // 1 km in 156 s at time scale 10: 1000 / 156 / 10 m/s.
    assert_eq!(c.get_target_speed(0, 10_000), 641_025);
    assert_eq!(c.get_target_speed(-5_000_000, 10_000), 641_025);
    assert_eq!(c.get_target_speed(4_999_999_999, 10_000), 641_025);
    assert_eq!(c.get_target_speed(9_000_000_000, 1_000), 6_410_256);
    assert_eq!(c.get_target_speed(0, 0), 0);
    let uneven = SplitTimes::with_jitter(1_000_000, [9_800, 10_200, 10_000, 9_900]);
    // Second segment: 408 s - 196 s = 212 s.
    assert_eq!(uneven.get_target_speed(1_500_000_000, 10_000), 471_698);
}

#[test]
fn update_accelerates_moves_and_drifts() {
    let mut r = resting_runner(0, curve_780());
    Runner::update(&mut r, 100_000, 10_000, 5_000_000_000);
    assert_eq!(r.target_speed, 641_025);
    assert_eq!(r.current_speed, 200_000);
    assert_eq!(r.distance, 20_000);
    // Animation rate floor 0.3 cycles/s for 0.1 s.
    assert_eq!(r.animation_phase, 30_000);
    // Lane 1.0 drifts by 0.15 * 0.1 * 1.0.
    assert_eq!(r.lane_position, 985_000);
    assert!(!r.flags.finished);
}

#[test]
fn speed_change_is_bounded_and_never_overshoots() {
    let mut r = resting_runner(0, curve_780());
    let delta = 16_667u64;
    let mut last = r.current_speed;
    for _ in 0..2_000 {
        Runner::update(&mut r, delta, 10_000, 5_000_000_000);
        let change = r.current_speed.abs_diff(last);
        assert!(change <= 2 * delta);
        assert!(r.current_speed <= r.target_speed);
        last = r.current_speed;
    }
    assert_eq!(r.current_speed, r.target_speed);
}

#[test]
fn finish_detection_and_cooldown() {
    let mut r = resting_runner(5_000_000_000, curve_780());
    r.current_speed = 641_025;
    Runner::update(&mut r, 16_667, 10_000, 5_000_000_000);
    assert!(r.flags.finished);
    assert_eq!(r.target_speed, 320_512);
    assert_eq!(r.current_speed, 641_025 - 2 * 16_667);
    for _ in 0..1_000 {
        Runner::update(&mut r, 16_667, 10_000, 5_000_000_000);
        assert!(r.flags.finished);
    }
    assert_eq!(r.current_speed, 320_512);
}

#[test]
fn lane_never_drifts_below_minimum() {
    let mut r = resting_runner(0, curve_780());
    r.lane_position = 760_000;
    Runner::update(&mut r, 60_000_000, 10_000, 5_000_000_000);
    assert_eq!(r.lane_position, 750_000);
    Runner::update(&mut r, 1_000_000, 10_000, 5_000_000_000);
    assert_eq!(r.lane_position, 750_000);
}

#[test]
fn new_and_reset_runner() {
    let mut r = RunnerState::new(7, String::from("Runner 8"), 900_000);
    assert_eq!(r.id, 7);
    assert_eq!(r.name, "Runner 8");
    assert_eq!(r.distance, 0);
    assert_eq!(r.lane_position, 1_000_000);
    assert!(r.animation_phase < 1_000_000);
    assert!((850_000..1_150_000).contains(&r.stride_multiplier));
    assert_eq!(r.split_times.final_time, 900_000);
    r.current_speed = 5;
    r.flags.finished = true;
    r.reset(-6_000_000, 950_000);
    assert_eq!(r.distance, -6_000_000);
    assert_eq!(r.lane_position, 950_000);
    assert_eq!(r.current_speed, 0);
    assert!(!r.flags.finished);
}

#[test]
fn snapshot_of_runner() {
    let r = resting_runner(42, curve_780());
    let s = RunnerSnapshot::from(&r);
    assert_eq!(s.id, 3);
    assert_eq!(s.distance, 42);
    assert_eq!(s.lane_position, 1_000_000);
    assert_eq!(s.speed, 0);
    assert!(!s.finished);
}
