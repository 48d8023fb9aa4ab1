//! The simulation server: owns the current race, a coarse lifecycle, the
//! running flag and tick-time diagnostics.

use crate::race::{
    COUNTDOWN, FASTEST_FINISH, Race, RaceConfig, RaceResult, RaceSnapshot, RaceStatus,
    SLOWEST_FINISH, runner_name,
};
use crate::runner::MAX_TICK;
use vstd::prelude::*;

verus! {

/// Number of recent tick durations kept for diagnostics.
pub const TICK_WINDOW: usize = 60;

/// Nominal ticks per second.
pub const TICK_RATE: u32 = 60;

/// Coarse lifecycle of the server.
#[derive(Debug, Clone, Copy, PartialEq, Eq, Structural)]
pub enum GameState {
    Idle,
    Loading,
    Ready,
    Racing,
    Results,
}

/// Server statistics.
#[derive(Debug, Clone, Copy, PartialEq, Eq)]
pub struct ServerStats {
    pub tick_rate: u32,
    /// Mean of the recorded tick durations, in microseconds (0 if none).
    pub avg_tick_time: u64,
    pub runner_count: u32,
    pub game_state: GameState,
}

/// Sum of a sequence of durations.
pub open spec fn total(s: Seq<u64>) -> int
    decreases s.len(),
{
    if s.len() == 0 {
        0
    } else {
        total(s.drop_last()) + s.last()
    }
}

/// The main game server.
#[derive(Debug)]
pub struct GameServer {
    pub state: GameState,
    pub race: Option<Race>,
    pub tick_rate: u32,
    /// Wall-clock time of the last tick, in microseconds.
    pub last_tick: u64,
    /// Most recent tick durations, oldest first, in microseconds.
    pub tick_times: Vec<u64>,
    pub running: bool,
}

/// The snapshot that a server gives: that of its race, if any.
pub open spec fn snapshot_of(race: Option<Race>, r: Option<RaceSnapshot>) -> bool {
    match race {
        None => r.is_none(),
        Some(race) => r.is_some() && race.snapshot_matches(r.unwrap()),
    }
}

impl GameServer {
    /// The race is well formed, it exists exactly when the server is not
    /// idle, the tick rate is the nominal one and the diagnostics window is
    /// bounded.
    pub open spec fn wf(&self) -> bool {
        &&& (self.state == GameState::Idle) == self.race.is_none()
        &&& self.tick_rate == TICK_RATE
        &&& self.race.is_some() ==> self.race.unwrap().wf()
        &&& self.tick_times@.len() <= TICK_WINDOW
    }

    /// An idle server with no race.
    pub fn new() -> (r: Self)
        ensures
            r.wf(),
            r.state == GameState::Idle,
            r.race.is_none(),
            r.tick_rate == TICK_RATE,
            r.last_tick == 0,
            r.tick_times@.len() == 0,
            !r.running,
    {
        GameServer {
            state: GameState::Idle,
            race: None,
            tick_rate: TICK_RATE,
            last_tick: 0,
            tick_times: Vec::new(),
            running: false,
        }
    }

    /// Replaces any race with a new one built from `config`: roster generated
    /// and laid out on the starting grid; the server is then ready.
    pub fn init_race(&mut self, config: RaceConfig)
        requires
            old(self).wf(),
            config.within_limits(),
        ensures
            final(self).wf(),
            final(self).state == GameState::Ready,
            final(self).race.is_some(),
            final(self).race.unwrap().config == config,
            final(self).race.unwrap().status == RaceStatus::NotStarted,
            final(self).race.unwrap().runners@.len() == config.runner_count,
            final(self).race.unwrap().finish_order@.len() == 0,
            final(self).race.unwrap().elapsed_time == 0,
            final(self).race.unwrap().countdown == COUNTDOWN,
            forall|i: int|
                0 <= i < config.runner_count ==> {
                    let r = #[trigger] final(self).race.unwrap().runners@[i];
                    let lane = 800_000 + (i % 10) * 150_000;
                    &&& r.id == i
                    &&& r.name@ == runner_name((i + 1) as nat)
                    &&& !r.flags.finished
                    &&& r.distance == -((i / 10) * config.formation_spread)
                    &&& lane <= r.lane_position < lane + 50_000
                    &&& r.current_speed == 0
                    &&& r.target_speed == 0
                    &&& FASTEST_FINISH <= r.split_times.final_time < SLOWEST_FINISH
                },
            forall|i: int, j: int|
                0 <= i < j < config.runner_count ==> final(self).race.unwrap().runners@[i].split_times.final_time
                    <= final(self).race.unwrap().runners@[j].split_times.final_time,
            final(self).running == old(self).running,
            final(self).last_tick == old(self).last_tick,
            final(self).tick_times == old(self).tick_times,
            final(self).tick_rate == old(self).tick_rate,
    {
        self.state = GameState::Loading;
        let mut race = Race::new(config);
        race.generate_runners();
        let ghost generated = race.runners@;
        race.setup_starting_positions();
        proof {
            assert forall|i: int, j: int|
                0 <= i < j < config.runner_count implies race.runners@[i].split_times.final_time
                    <= race.runners@[j].split_times.final_time by {
                assert(race.runners@[i].split_times == generated[i].split_times);
                assert(race.runners@[j].split_times == generated[j].split_times);
            }
        }
        self.race = Some(race);
        self.state = GameState::Ready;
    }

    /// Arms the countdown of the current race at wall-clock time `now`
    /// (microseconds); does nothing without a race.
    pub fn start_race(&mut self, now: u64)
        requires
            old(self).wf(),
        ensures
            final(self).wf(),
            old(self).race.is_none() ==> *final(self) == *old(self),
            old(self).race.is_some() ==> {
                &&& final(self).state == GameState::Racing
                &&& final(self).running
                &&& final(self).last_tick == now
                &&& final(self).race.is_some()
                &&& final(self).race.unwrap().status == RaceStatus::Countdown
                &&& final(self).race.unwrap().countdown == COUNTDOWN
                &&& final(self).race.unwrap().config == old(self).race.unwrap().config
                &&& final(self).race.unwrap().elapsed_time == old(self).race.unwrap().elapsed_time
                &&& final(self).race.unwrap().runners == old(self).race.unwrap().runners
                &&& final(self).tick_rate == old(self).tick_rate
                &&& final(self).race.unwrap().finish_order == old(self).race.unwrap().finish_order
                &&& final(self).tick_times == old(self).tick_times
            },
    {
        if let Some(race) = &mut self.race {
            race.start_countdown();
            self.state = GameState::Racing;
            self.running = true;
            self.last_tick = now;
        }
    }

    /// One simulation tick at wall-clock time `now` (microseconds).
    ///
    /// When not running, nothing changes and the current snapshot comes back.
    /// Otherwise the race advances by the real time since the last tick: none
    /// if the clock went back, and a gap longer than `MAX_TICK` (one hour)
    /// counts as `MAX_TICK`, so a longer stall without `pause` loses the rest.
    /// When the race is finished the server shows results and stops running.
    pub fn tick(&mut self, now: u64) -> (r: Option<RaceSnapshot>)
        requires
            old(self).wf(),
        ensures
            final(self).wf(),
            snapshot_of(final(self).race, r),
            final(self).tick_rate == old(self).tick_rate,
            !old(self).running ==> *final(self) == *old(self),
            old(self).running ==> {
                let delta = Self::tick_delta(old(self).last_tick as int, now as int);
                &&& final(self).last_tick == now
                &&& final(self).tick_times == old(self).tick_times
                &&& old(self).race.is_none() ==> final(self).race.is_none() && final(self).state
                    == old(self).state && final(self).running
                &&& old(self).race.is_some() ==> {
                    let race = final(self).race.unwrap();
                    &&& final(self).race.is_some()
                    &&& old(self).race.unwrap().advanced(race, delta)
                    &&& if race.status == RaceStatus::Finished {
                        final(self).state == GameState::Results && !final(self).running
                    } else {
                        final(self).state == old(self).state && final(self).running
                    }
                }
            },
    {
        if !self.running {
            return self.get_snapshot();
        }
        let delta = if now <= self.last_tick {
            0
        } else if now - self.last_tick > MAX_TICK {
            MAX_TICK
        } else {
            now - self.last_tick
        };
        self.last_tick = now;
        if let Some(race) = &mut self.race {
            race.update(delta);
            if race.status == RaceStatus::Finished {
                self.state = GameState::Results;
                self.running = false;
            }
        }
        self.get_snapshot()
    }

    /// Real time that a tick at `now` covers after one at `last`.
    pub open spec fn tick_delta(last: int, now: int) -> int {
        if now <= last {
            0
        } else if now - last > MAX_TICK {
            MAX_TICK as int
        } else {
            now - last
        }
    }

    /// Records how long a tick took (microseconds), keeping only the most
    /// recent `TICK_WINDOW` samples.
    pub fn record_tick_time(&mut self, duration: u64)
        requires
            old(self).wf(),
        ensures
            final(self).wf(),
            final(self).state == old(self).state,
            final(self).race == old(self).race,
            final(self).running == old(self).running,
            final(self).last_tick == old(self).last_tick,
            old(self).tick_times@.len() < TICK_WINDOW ==> final(self).tick_times@
                == old(self).tick_times@.push(duration),
            old(self).tick_times@.len() == TICK_WINDOW ==> final(self).tick_times@
                == old(self).tick_times@.push(duration).drop_first(),
    {
        self.tick_times.push(duration);
        if self.tick_times.len() > TICK_WINDOW {
            self.tick_times.remove(0);
        }
        assert(self.tick_times@.len() <= TICK_WINDOW);
    }

    /// The current race's snapshot, if there is a race.
    pub fn get_snapshot(&self) -> (r: Option<RaceSnapshot>)
        requires
            self.wf(),
        ensures
            snapshot_of(self.race, r),
    {
        match &self.race {
            Some(race) => Some(race.get_snapshot()),
            None => None,
        }
    }

    /// A copy of the current race's finish order, if there is a race.
    pub fn get_results(&self) -> (r: Option<Vec<RaceResult>>)
        requires
            self.wf(),
        ensures
            self.race.is_none() <==> r.is_none(),
            r.is_some() ==> r.unwrap()@ == self.race.unwrap().finish_order@,
    {
        match &self.race {
            Some(race) => {
                let mut out: Vec<RaceResult> = Vec::with_capacity(race.finish_order.len());
                let mut i: usize = 0;
                while i < race.finish_order.len()
                    invariant
                        0 <= i <= race.finish_order@.len(),
                        out@ == race.finish_order@.subrange(0, i as int),
                    decreases race.finish_order@.len() - i,
                {
                    let entry = &race.finish_order[i];
                    out.push(
                        RaceResult {
                            runner_id: entry.runner_id,
                            runner_name: entry.runner_name.clone(),
                            finish_time: entry.finish_time,
                            position: entry.position,
                        },
                    );
                    proof {
                        assert(out@ =~= race.finish_order@.subrange(0, i + 1));
                    }
                    i += 1;
                }
                proof {
                    assert(out@ =~= race.finish_order@);
                }
                Some(out)
            },
            None => None,
        }
    }

    /// Tick rate, mean recorded tick time, roster size and lifecycle state.
    pub fn get_stats(&self) -> (r: ServerStats)
        requires
            self.wf(),
        ensures
            r.tick_rate == self.tick_rate,
            r.game_state == self.state,
            r.runner_count == (if self.race.is_some() {
                self.race.unwrap().runners@.len() as int
            } else {
                0
            }),
            r.avg_tick_time == (if self.tick_times@.len() == 0 {
                0
            } else {
                total(self.tick_times@) / self.tick_times@.len() as int
            }),
    {
        let n = self.tick_times.len();
        let mut sum: u128 = 0;
        let mut i: usize = 0;
        while i < n
            invariant
                0 <= i <= n,
                n == self.tick_times@.len(),
                n <= TICK_WINDOW,
                sum == total(self.tick_times@.subrange(0, i as int)),
                sum <= i * (u64::MAX as int),
            decreases n - i,
        {
            proof {
                let s = self.tick_times@.subrange(0, i + 1);
                assert(s.drop_last() =~= self.tick_times@.subrange(0, i as int));
            }
            sum = sum + self.tick_times[i] as u128;
            i += 1;
        }
        proof {
            assert(self.tick_times@.subrange(0, n as int) =~= self.tick_times@);
        }
        let avg: u64 = if n == 0 {
            0
        } else {
            assert((sum as int) / (n as int) <= u64::MAX) by (nonlinear_arith)
                requires
                    sum <= n * (u64::MAX as int),
                    n >= 1,
            ;
            (sum / n as u128) as u64
        };
        let runner_count: u32 = match &self.race {
            Some(race) => race.runners.len() as u32,
            None => 0,
        };
        ServerStats {
            tick_rate: self.tick_rate,
            avg_tick_time: avg,
            runner_count,
            game_state: self.state,
        }
    }

    /// The lifecycle state.
    pub fn get_state(&self) -> (r: GameState)
        ensures
            r == self.state,
    {
        self.state
    }

    /// Drops the race, clears diagnostics and returns to idle.
    pub fn reset(&mut self)
        requires
            old(self).wf(),
        ensures
            final(self).wf(),
            final(self).state == GameState::Idle,
            final(self).race.is_none(),
            !final(self).running,
            final(self).tick_times@.len() == 0,
            final(self).tick_rate == old(self).tick_rate,
            final(self).last_tick == old(self).last_tick,
    {
        self.state = GameState::Idle;
        self.race = None;
        self.running = false;
        self.tick_times.clear();
    }

    /// Stops ticking.
    pub fn pause(&mut self)
        ensures
            *final(self) == (GameServer { running: false, ..*old(self) }),
    {
        self.running = false;
    }

    /// Starts ticking again at wall-clock time `now`, only during a race.
    pub fn resume(&mut self, now: u64)
        ensures
            old(self).state == GameState::Racing ==> *final(self) == (GameServer {
                running: true,
                last_tick: now,
                ..*old(self)
            }),
            old(self).state != GameState::Racing ==> *final(self) == *old(self),
    {
        if self.state == GameState::Racing {
            self.running = true;
            self.last_tick = now;
        }
    }

    /// Whether ticks advance the simulation.
    pub fn is_running(&self) -> (r: bool)
        ensures
            r == self.running,
    {
        self.running
    }
}

impl Default for GameServer {
    fn default() -> (r: Self)
        ensures
            r.wf(),
            r.state == GameState::Idle,
            r.race.is_none(),
            r.tick_rate == TICK_RATE,
            r.tick_times@.len() == 0,
            !r.running,
    {
        Self::new()
    }
}

} // verus!
