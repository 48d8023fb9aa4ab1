use std::collections::HashSet;
use track_runner::race::{RaceConfig, RaceStatus};
use track_runner::simulation::{GameServer, GameState, TICK_RATE};

const FRAME: u64 = 16_667;

fn config(runner_count: u32, time_scale: u64) -> RaceConfig {
    RaceConfig { runner_count, time_scale, ..RaceConfig::default() }
}

#[test]
fn new_server_is_idle() {
    let s = GameServer::new();
    assert_eq!(s.get_state(), GameState::Idle);
    assert!(s.get_snapshot().is_none());
    assert!(s.get_results().is_none());
    assert!(!s.is_running());
    let stats = s.get_stats();
    assert_eq!(stats.tick_rate, TICK_RATE);
    assert_eq!(stats.avg_tick_time, 0);
    assert_eq!(stats.runner_count, 0);
    assert_eq!(stats.game_state, GameState::Idle);
    assert_eq!(GameServer::default().get_state(), GameState::Idle);
}

#[test]
fn init_race_makes_server_ready() {
    let mut s = GameServer::new();
    s.init_race(config(100, 10_000));
    assert_eq!(s.get_state(), GameState::Ready);
    let snap = s.get_snapshot().unwrap();
    assert_eq!(snap.runners.len(), 100);
    assert_eq!(snap.status, RaceStatus::NotStarted);
    assert_eq!(s.get_stats().runner_count, 100);
    assert!(s.get_results().unwrap().is_empty());
}

#[test]
fn start_without_race_does_nothing() {
    let mut s = GameServer::new();
    s.start_race(5);
    assert_eq!(s.get_state(), GameState::Idle);
    assert!(!s.is_running());
    assert!(s.tick(10).is_none());
}

#[test]
fn full_race_of_ten_runners() {
    let mut s = GameServer::new();
    s.init_race(config(10, 10_000));
    let mut now: u64 = 1_000_000;
    s.start_race(now);
    assert_eq!(s.get_state(), GameState::Racing);
    let mut last = s.get_snapshot().unwrap();
    loop {
        now += FRAME;
        let snap = s.tick(now).unwrap();
        assert!(snap.finisher_count >= last.finisher_count);
        for (a, b) in last.runners.iter().zip(snap.runners.iter()) {
            assert!(!a.finished || b.finished);
        }
        let done = snap.status == RaceStatus::Finished;
        last = snap;
        if done {
            break;
        }
    }
    assert_eq!(s.get_state(), GameState::Results);
    assert!(!s.is_running());
    let results = s.get_results().unwrap();
    assert_eq!(results.len(), 10);
    let ids: HashSet<u32> = results.iter().map(|r| r.runner_id).collect();
    assert_eq!(ids.len(), 10);
    for (k, r) in results.iter().enumerate() {
        assert_eq!(r.position as usize, k + 1);
    }
    for w in results.windows(2) {
        assert!(w[0].finish_time <= w[1].finish_time);
    }
    assert_eq!(last.finisher_count, 10);
    // The race is over: further ticks change nothing.
    assert_eq!(s.tick(now + FRAME), s.get_snapshot());
}

#[test]
fn tick_while_paused_returns_unchanged_snapshot() {
    let mut s = GameServer::new();
    s.init_race(config(10, 10_000));
    s.pause();
    let ticked = s.tick(123_456).unwrap();
    assert_eq!(Some(ticked.clone()), s.get_snapshot());
    assert_eq!(ticked.elapsed_time, 0);
    assert_eq!(s.get_state(), GameState::Ready);
}

#[test]
fn snapshot_is_stable_without_tick() {
    let mut s = GameServer::new();
    s.init_race(config(20, 10_000));
    s.start_race(0);
    for k in 1..400u64 {
        s.tick(k * FRAME);
    }
    let a = s.get_snapshot();
    let b = s.get_snapshot();
    let c = s.get_snapshot();
    assert_eq!(a, b);
    assert_eq!(b, c);
}

#[test]
fn reset_after_finished_race() {
    let mut s = GameServer::new();
    s.init_race(config(3, 1_000_000));
    s.start_race(0);
    let mut now = 0u64;
    while s.get_state() != GameState::Results {
        now += 1_000_000;
        s.tick(now);
        s.record_tick_time(250);
    }
    s.reset();
    assert_eq!(s.get_state(), GameState::Idle);
    assert!(s.get_snapshot().is_none());
    assert!(s.get_results().is_none());
    assert_eq!(s.get_stats().avg_tick_time, 0);
}

#[test]
fn pause_and_resume() {
    let mut s = GameServer::new();
    s.resume(7);
    assert!(!s.is_running());
    s.init_race(config(5, 10_000));
    s.start_race(0);
    s.tick(4_000_000);
    let elapsed = s.get_snapshot().unwrap().elapsed_time;
    s.pause();
    s.tick(90_000_000);
    assert_eq!(s.get_snapshot().unwrap().elapsed_time, elapsed);
    s.resume(100_000_000);
    assert!(s.is_running());
    s.tick(100_100_000);
    assert_eq!(s.get_snapshot().unwrap().elapsed_time, elapsed + 1_000_000);
}

#[test]
fn clock_going_back_gives_empty_tick() {
    let mut s = GameServer::new();
    s.init_race(config(5, 10_000));
    s.start_race(10_000_000);
    s.tick(5_000_000);
    assert_eq!(s.get_snapshot().unwrap().countdown, 3_000_000);
}

#[test]
fn tick_time_window_keeps_last_sixty() {
    let mut s = GameServer::new();
    s.record_tick_time(10);
    s.record_tick_time(20);
    assert_eq!(s.get_stats().avg_tick_time, 15);
    let mut s = GameServer::new();
    for k in 0..100u64 {
        s.record_tick_time(k);
    }
    assert_eq!(s.tick_times.len(), 60);
    assert_eq!(s.tick_times[0], 40);
    // Mean of 40..=99.
    assert_eq!(s.get_stats().avg_tick_time, 69);
}

#[test]
fn long_gap_counts_as_one_hour() {
    let mut s = GameServer::new();
    s.init_race(config(5, 10_000));
    s.start_race(0);
    s.tick(3_000_000);
    let snap = s.tick(3_000_000 + 7_200_000_000).unwrap();
    assert_eq!(snap.elapsed_time, 36_000_000_000);
    assert_eq!(s.get_stats().tick_rate, TICK_RATE);
}

#[test]
fn new_race_starts_with_full_countdown() {
    let mut s = GameServer::new();
    s.init_race(config(12, 10_000));
    let snap = s.get_snapshot().unwrap();
    assert_eq!(snap.countdown, 3_000_000);
    for (i, r) in snap.runners.iter().enumerate() {
        assert_eq!(r.id as usize, i);
        assert!(!r.finished);
    }
    s.start_race(42);
    let snap = s.get_snapshot().unwrap();
    assert_eq!(snap.status, RaceStatus::Countdown);
    assert_eq!(snap.elapsed_time, 0);
    assert_eq!(s.get_stats().tick_rate, 60);
}
