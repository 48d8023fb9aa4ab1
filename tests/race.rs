use track_runner::race::{Race, RaceConfig, RaceStatus, COUNTDOWN};

fn config(runner_count: u32) -> RaceConfig {
    RaceConfig { runner_count, ..RaceConfig::default() }
}

fn ready_race(runner_count: u32) -> Race {
    let mut race = Race::new(config(runner_count));
    race.generate_runners();
    race.setup_starting_positions();
    race
}

#[test]
fn default_config() {
    let c = RaceConfig::default();
    assert_eq!(c.distance, 5_000_000_000);
    assert_eq!(c.runner_count, 100);
    assert_eq!(c.time_scale, 10_000);
    assert_eq!(c.formation_spread, 3_000_000);
}

#[test]
fn finish_times_follow_deciles_and_are_sorted() {
    let t = Race::generate_finish_times(100);
    assert_eq!(t.len(), 100);
    for w in t.windows(2) {
        assert!(w[0] <= w[1]);
    }
    assert_eq!(t.iter().filter(|&&x| x < 840_000).count(), 10);
    assert_eq!(t.iter().filter(|&&x| (900_000..1_080_000).contains(&x)).count(), 20);
    assert_eq!(t.iter().filter(|&&x| (1_140_000..1_500_000).contains(&x)).count(), 40);
    assert_eq!(t.iter().filter(|&&x| x >= 1_560_000).count(), 30);
    assert!(Race::generate_finish_times(0).is_empty());
}

#[test]
fn roster_names_ids_and_grid() {
    let race = ready_race(25);
    assert_eq!(race.runners.len(), 25);
    assert_eq!(race.runners[0].name, "Runner 1");
    assert_eq!(race.runners[9].name, "Runner 10");
    assert_eq!(race.runners[24].name, "Runner 25");
    for (i, r) in race.runners.iter().enumerate() {
        assert_eq!(r.id as usize, i);
        assert_eq!(r.distance, -((i / 10) as i64) * 3_000_000);
        let lane = 800_000 + (i % 10) as u64 * 150_000;
        assert!(r.lane_position >= lane && r.lane_position < lane + 50_000);
    }
    for w in race.runners.windows(2) {
        assert!(w[0].split_times.final_time <= w[1].split_times.final_time);
    }
}

#[test]
fn countdown_then_racing() {
    let mut race = ready_race(3);
    race.update(1_000_000);
    assert_eq!(race.status, RaceStatus::NotStarted);
    race.start_countdown();
    assert_eq!(race.status, RaceStatus::Countdown);
    assert_eq!(race.countdown, COUNTDOWN);
    race.update(1_000_000);
    race.update(1_000_000);
    assert_eq!(race.status, RaceStatus::Countdown);
    assert_eq!(race.countdown, 1_000_000);
    assert_eq!(race.elapsed_time, 0);
    race.update(1_500_000);
    assert_eq!(race.status, RaceStatus::Racing);
    assert_eq!(race.countdown, 0);
    race.update(100_000);
    assert_eq!(race.elapsed_time, 1_000_000);
}

#[test]
fn empty_roster_finishes_at_once() {
    let mut race = ready_race(0);
    race.start_countdown();
    race.update(3_000_000);
    assert_eq!(race.status, RaceStatus::Racing);
    race.update(1);
    assert_eq!(race.status, RaceStatus::Finished);
    assert!(race.finish_order.is_empty());
}

#[test]
fn finish_order_records_crossings() {
    let mut race = ready_race(12);
    race.start_countdown();
    race.update(3_000_000);
    let mut ticks = 0u64;
    while race.status != RaceStatus::Finished {
        race.update(60_000_000);
        ticks += 1;
        assert!(race.finish_order.len() <= race.runners.len());
        assert!(ticks < 10_000);
    }
    assert_eq!(race.finish_order.len(), 12);
    for (k, r) in race.finish_order.iter().enumerate() {
        assert_eq!(r.position as usize, k + 1);
        assert_eq!(r.runner_name, race.runners[r.runner_id as usize].name);
        assert!(race.runners[r.runner_id as usize].flags.finished);
    }
    for w in race.finish_order.windows(2) {
        assert!(w[0].finish_time <= w[1].finish_time);
    }
    let before = race.finish_order.clone();
    let elapsed = race.elapsed_time;
    race.update(1_000_000);
    assert_eq!(race.finish_order, before);
    assert_eq!(race.elapsed_time, elapsed);
    assert_eq!(race.status, RaceStatus::Finished);
}

#[test]
fn leader_and_lookup() {
    let mut race = ready_race(12);
    race.runners[4].distance = 100;
    race.runners[7].distance = 100;
    assert_eq!(race.get_leader().unwrap().id, 7);
    assert_eq!(race.get_runner(11).unwrap().id, 11);
    assert!(race.get_runner(12).is_none());
    let empty = Race::new(config(0));
    assert!(empty.get_leader().is_none());
}

#[test]
fn race_snapshot_copies_state() {
    let race = ready_race(5);
    let s = race.get_snapshot();
    assert_eq!(s.status, RaceStatus::NotStarted);
    assert_eq!(s.elapsed_time, 0);
    assert_eq!(s.countdown, COUNTDOWN);
    assert_eq!(s.finisher_count, 0);
    assert_eq!(s.runners.len(), 5);
    for (snap, r) in s.runners.iter().zip(race.runners.iter()) {
        assert_eq!(snap.id, r.id);
        assert_eq!(snap.distance, r.distance);
        assert_eq!(snap.lane_position, r.lane_position);
    }
    assert_eq!(race.get_snapshot(), s);
}
