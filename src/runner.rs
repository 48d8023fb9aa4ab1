//! A single runner: its pacing curve and its per-tick kinematics.

use crate::random::random_below;
use vstd::prelude::*;

verus! {

/// One kilometre, in micrometres.
pub const KILOMETER: i64 = 1_000_000_000;

/// One metre, in micrometres.
pub const METER: i64 = 1_000_000;

/// Scale of the fixed-point fractions (lane offset, animation phase, stride).
pub const UNIT: u64 = 1_000_000;

/// Scale of a pacing jitter factor.
pub const JITTER_UNIT: u64 = 10_000;

/// Smallest pacing jitter factor (0.98).
pub const JITTER_MIN: u64 = 9_800;

/// Largest pacing jitter factor (1.02).
pub const JITTER_MAX: u64 = 10_200;

/// Shortest finish time, in milliseconds, that still gives distinct checkpoints.
pub const MIN_FINISH_TIME: u64 = 10;

/// Longest finish time, in milliseconds, that the fixed-point model holds.
pub const MAX_FINISH_TIME: u64 = 1_000_000_000_000;

/// One kilometre in micrometres, times milliseconds per second, times
/// thousandths per unit of time scale: divided by a segment's milliseconds and
/// the time scale's thousandths it gives micrometres per second.
pub const SPEED_NUMERATOR: u128 = 1_000_000_000_000_000;

/// The fastest target speed a pacing curve can ask for.
pub const MAX_SPEED: u64 = 1_000_000_000_000_000;

/// The nominal cumulative time of checkpoint `k` (0-based) for finish time `f`,
/// scaled by jitter factor `j` (in ten-thousandths).
pub open spec fn checkpoint_time(f: int, k: int, j: int) -> int {
    (k + 1) * (f / 5) * j / (JITTER_UNIT as int)
}

/// Cumulative checkpoint times (in milliseconds) at each kilometre of a 5 km race.
#[derive(Debug, Clone, Copy, PartialEq, Eq)]
pub struct SplitTimes {
    pub splits: [u64; 5],
    pub final_time: u64,
}

impl SplitTimes {
    /// Checkpoints strictly increase and the last one is the finish time.
    pub open spec fn wf(&self) -> bool {
        &&& 0 < self.splits@[0]
        &&& self.splits@[0] < self.splits@[1]
        &&& self.splits@[1] < self.splits@[2]
        &&& self.splits@[2] < self.splits@[3]
        &&& self.splits@[3] < self.splits@[4]
        &&& self.splits@[4] == self.final_time
        &&& self.final_time <= MAX_FINISH_TIME
    }

    /// The active 1 km segment for a distance, clamped to `0..=4`.
    pub open spec fn segment_index(distance: int) -> int {
        if distance < 0 {
            0
        } else if distance / (KILOMETER as int) >= 4 {
            4
        } else {
            distance / (KILOMETER as int)
        }
    }

    /// The time budget (milliseconds) of segment `seg`.
    pub open spec fn segment_duration(&self, seg: int) -> int {
        if seg == 0 {
            self.splits@[0] as int
        } else {
            self.splits@[seg] - self.splits@[seg - 1]
        }
    }

    /// Target speed in micrometres per real second: one kilometre over the
    /// segment's time budget, divided by the time scale; no motion at scale zero.
    pub open spec fn target_speed_spec(&self, distance: int, time_scale: int) -> int {
        if time_scale == 0 {
            0
        } else {
            SPEED_NUMERATOR as int / (self.segment_duration(Self::segment_index(distance))
                * time_scale)
        }
    }

    /// Cumulative time of checkpoint `k` from the per-kilometre time
    /// `km_time`, scaled by jitter factor `j`.
    fn jittered_checkpoint(km_time: u64, k: u64, j: u64) -> (r: u64)
        requires
            km_time <= MAX_FINISH_TIME / 5,
            k < 4,
            j <= JITTER_MAX,
        ensures
            r == (k + 1) * km_time * j / (JITTER_UNIT as int),
    {
        assert((k + 1) * km_time <= 4 * (MAX_FINISH_TIME / 5)) by (nonlinear_arith)
            requires
                km_time <= MAX_FINISH_TIME / 5,
                k < 4,
        ;
        assert((k + 1) * km_time * j <= 4 * (MAX_FINISH_TIME / 5) * JITTER_MAX) by (nonlinear_arith)
            requires
                (k + 1) * km_time <= 4 * (MAX_FINISH_TIME / 5),
                j <= JITTER_MAX,
        ;
        (k + 1) * km_time * j / JITTER_UNIT
    }

    /// Builds the pacing curve for finish time `finish_time` from the jitter
    /// factors of the first four checkpoints; the fifth is exactly the finish time.
    pub fn with_jitter(finish_time: u64, jitter: [u64; 4]) -> (r: Self)
        requires
            MIN_FINISH_TIME <= finish_time <= MAX_FINISH_TIME,
            forall|i: int| 0 <= i < 4 ==> JITTER_MIN <= #[trigger] jitter@[i] <= JITTER_MAX,
        ensures
            r.wf(),
            r.final_time == finish_time,
            r.splits@[4] == finish_time,
            forall|i: int|
                0 <= i < 4 ==> #[trigger] r.splits@[i] == checkpoint_time(
                    finish_time as int,
                    i,
                    jitter@[i] as int,
                ),
    {
        let km = finish_time / 5;
        let c0 = Self::jittered_checkpoint(km, 0, jitter[0]);
        let c1 = Self::jittered_checkpoint(km, 1, jitter[1]);
        let c2 = Self::jittered_checkpoint(km, 2, jitter[2]);
        let c3 = Self::jittered_checkpoint(km, 3, jitter[3]);
        proof {
            lemma_checkpoints_increase(finish_time as int, jitter@[0] as int, jitter@[1] as int, 0);
            lemma_checkpoints_increase(finish_time as int, jitter@[1] as int, jitter@[2] as int, 1);
            lemma_checkpoints_increase(finish_time as int, jitter@[2] as int, jitter@[3] as int, 2);
            lemma_last_checkpoint_early(finish_time as int, jitter@[3] as int);
            lemma_first_checkpoint_positive(finish_time as int, jitter@[0] as int);
        }
        let r = SplitTimes { splits: [c0, c1, c2, c3, finish_time], final_time: finish_time };
        assert(r.splits@[0] == c0 && r.splits@[1] == c1 && r.splits@[2] == c2 && r.splits@[3] == c3
            && r.splits@[4] == finish_time);
        r
    }

    /// Builds a pacing curve for `finish_time` with each of the first four
    /// checkpoints jittered by a random factor in `[0.98, 1.02]`.
    pub fn from_finish_time(finish_time: u64) -> (r: Self)
        requires
            MIN_FINISH_TIME <= finish_time <= MAX_FINISH_TIME,
        ensures
            r.wf(),
            r.final_time == finish_time,
            r.splits@[4] == finish_time,
            forall|i: int|
                0 <= i < 4 ==> checkpoint_time(finish_time as int, i, JITTER_MIN as int)
                    <= #[trigger] r.splits@[i] <= checkpoint_time(
                    finish_time as int,
                    i,
                    JITTER_MAX as int,
                ),
    {
        let span = JITTER_MAX - JITTER_MIN + 1;
        let jitter = [
            JITTER_MIN + random_below(span),
            JITTER_MIN + random_below(span),
            JITTER_MIN + random_below(span),
            JITTER_MIN + random_below(span),
        ];
        let r = Self::with_jitter(finish_time, jitter);
        proof {
            assert forall|i: int| 0 <= i < 4 implies checkpoint_time(
                finish_time as int,
                i,
                JITTER_MIN as int,
            ) <= #[trigger] r.splits@[i] <= checkpoint_time(
                finish_time as int,
                i,
                JITTER_MAX as int,
            ) by {
                lemma_checkpoint_monotone(finish_time as int, i, jitter@[i] as int);
            }
        }
        r
    }

    /// Target speed at `distance` (micrometres) under `time_scale` (thousandths).
    pub fn get_target_speed(&self, distance: i64, time_scale: u64) -> (r: u64)
        requires
            self.wf(),
        ensures
            r == self.target_speed_spec(distance as int, time_scale as int),
            r <= MAX_SPEED,
    {
        let seg: usize = if distance < 0 {
            0
        } else if distance / KILOMETER >= 4 {
            4
        } else {
            (distance / KILOMETER) as usize
        };
        let duration: u64 = if seg == 0 {
            self.splits[0]
        } else {
            self.splits[seg] - self.splits[seg - 1]
        };
        assert(duration as int == self.segment_duration(Self::segment_index(distance as int)));
        if time_scale == 0 {
            0
        } else {
            assert(duration as int * time_scale as int <= MAX_FINISH_TIME as int * 0x1_0000_0000_0000_0000) by (nonlinear_arith)
                requires
                    duration <= MAX_FINISH_TIME,
                    time_scale < 0x1_0000_0000_0000_0000,
            ;
            let denom: u128 = duration as u128 * time_scale as u128;
            assert(denom >= 1) by (nonlinear_arith)
                requires
                    denom == duration * time_scale,
                    duration >= 1,
                    time_scale >= 1,
            ;
            assert(SPEED_NUMERATOR / denom <= SPEED_NUMERATOR) by (nonlinear_arith)
                requires
                    denom >= 1,
            ;
            (SPEED_NUMERATOR / denom) as u64
        }
    }
}

/// A checkpoint grows with its jitter factor.
proof fn lemma_checkpoint_monotone(f: int, k: int, j: int)
    requires
        0 <= f,
        0 <= k < 4,
        JITTER_MIN <= j <= JITTER_MAX,
    ensures
        checkpoint_time(f, k, JITTER_MIN as int) <= checkpoint_time(f, k, j) <= checkpoint_time(
            f,
            k,
            JITTER_MAX as int,
        ),
{
    let base = (k + 1) * (f / 5);
    assert(base >= 0) by (nonlinear_arith)
        requires
            base == (k + 1) * (f / 5),
            f >= 0,
            k >= 0,
    ;
    assert(base * 9_800 <= base * j <= base * 10_200) by (nonlinear_arith)
        requires
            base >= 0,
            9_800 <= j <= 10_200,
    ;
    vstd::arithmetic::div_mod::lemma_div_is_ordered(base * 9_800, base * j, 10_000);
    vstd::arithmetic::div_mod::lemma_div_is_ordered(base * j, base * 10_200, 10_000);
}

/// Checkpoint `k + 1` lies after checkpoint `k`, whatever the two jitter factors.
proof fn lemma_checkpoints_increase(f: int, j0: int, j1: int, k: int)
    requires
        MIN_FINISH_TIME <= f,
        JITTER_MIN <= j0 <= JITTER_MAX,
        JITTER_MIN <= j1 <= JITTER_MAX,
        0 <= k < 3,
    ensures
        checkpoint_time(f, k, j0) < checkpoint_time(f, k + 1, j1),
{
    let km = f / 5;
    assert(km >= 2);
    let a = (k + 1) * km * j0;
    let b = (k + 2) * km * j1;
    assert(b >= a + 10_000) by (nonlinear_arith)
        requires
            a == (k + 1) * km * j0,
            b == (k + 2) * km * j1,
            km >= 2,
            9_800 <= j0 <= 10_200,
            9_800 <= j1 <= 10_200,
            0 <= k < 3,
    ;
    assert(a / 10_000 < b / 10_000) by (nonlinear_arith)
        requires
            b >= a + 10_000,
            a >= 0,
    ;
}

/// The fourth checkpoint lies strictly before the finish time.
proof fn lemma_last_checkpoint_early(f: int, j: int)
    requires
        MIN_FINISH_TIME <= f,
        JITTER_MIN <= j <= JITTER_MAX,
    ensures
        checkpoint_time(f, 3, j) < f,
{
    let km = f / 5;
    assert(4 * km * j / 10_000 < f) by (nonlinear_arith)
        requires
            km == f / 5,
            f >= 10,
            9_800 <= j <= 10_200,
    ;
}

/// The first checkpoint lies strictly after the start.
proof fn lemma_first_checkpoint_positive(f: int, j: int)
    requires
        MIN_FINISH_TIME <= f,
        JITTER_MIN <= j <= JITTER_MAX,
    ensures
        0 < checkpoint_time(f, 0, j),
{
    let km = f / 5;
    assert(1 * km * j / 10_000 > 0) by (nonlinear_arith)
        requires
            km == f / 5,
            f >= 10,
            9_800 <= j <= 10_200,
    ;
}

/// Speed gained or lost per microsecond of tick, in micrometres per second (2 m/s²).
pub const ACCELERATION_RATE: u64 = 2;

/// Lane offset (millionths) that runners drift toward.
pub const MIN_LANE: u64 = 750_000;

/// Largest lane offset (millionths) the fixed-point model holds.
pub const MAX_LANE: u64 = 1_000_000_000_000;

/// Lane drift per second, in hundredths of the current offset.
pub const DRIFT_PER_SECOND: u64 = 15;

/// Slowest animation rate (millionths of a stride cycle per second): 0.3.
pub const ANIMATION_FLOOR: u64 = 300_000;

/// Largest stride multiplier (millionths) the fixed-point model holds.
pub const MAX_STRIDE: u64 = 2_000_000;

/// Longest tick, in microseconds, that the fixed-point model holds: one hour.
pub const MAX_TICK: u64 = 3_600_000_000;

/// Farthest a runner can be from the start line, in micrometres.
pub const MAX_DISTANCE: i64 = 1_000_000_000_000_000_000;

/// Runner status flags.
#[derive(Debug, Clone, Copy, Default, PartialEq, Eq)]
pub struct RunnerFlags {
    pub finished: bool,
    pub squished: bool,
}

/// Complete state of one runner.
#[derive(Debug, Clone, PartialEq, Eq)]
pub struct RunnerState {
    pub id: u32,
    pub name: String,
    /// Distance along the track, in micrometres (negative behind the line).
    pub distance: i64,
    /// Lane offset from the inside edge, in millionths.
    pub lane_position: u64,
    /// Current speed, in micrometres per real second.
    pub current_speed: u64,
    /// Target speed, in micrometres per real second.
    pub target_speed: u64,
    /// Animation phase, in millionths of a cycle (below one cycle).
    pub animation_phase: u64,
    /// Stride multiplier, in millionths.
    pub stride_multiplier: u64,
    pub split_times: SplitTimes,
    pub flags: RunnerFlags,
}

/// `current` moved toward `target` by at most `max_change`, never past it.
pub open spec fn approach(current: int, target: int, max_change: int) -> int {
    if current < target {
        if current + max_change < target { current + max_change } else { target }
    } else if current > target {
        if current - max_change > target { current - max_change } else { target }
    } else {
        current
    }
}

/// Distance after moving at `speed` for `delta` microseconds, capped at `MAX_DISTANCE`.
pub open spec fn advance(distance: int, speed: int, delta: int) -> int {
    let step = speed * delta / 1_000_000;
    if distance + step > MAX_DISTANCE { MAX_DISTANCE as int } else { distance + step }
}

/// Animation cycles per second (millionths): speed over 25/3 m/s, at least 0.3.
pub open spec fn animation_rate(speed: int) -> int {
    let r = speed * 3 / 25;
    if r < ANIMATION_FLOOR { ANIMATION_FLOOR as int } else { r }
}

/// Animation phase after a tick, wrapped into one cycle.
pub open spec fn next_phase(phase: int, speed: int, stride: int, delta: int) -> int {
    (phase + delta * animation_rate(speed) * stride / 1_000_000_000_000) % (UNIT as int)
}

/// Lane offset after a tick: above `MIN_LANE` it decays toward it and never below.
pub open spec fn drift_lane(lane: int, delta: int) -> int {
    if lane > MIN_LANE {
        let drift = lane * DRIFT_PER_SECOND * delta / 100_000_000;
        if lane - drift < MIN_LANE { MIN_LANE as int } else { lane - drift }
    } else {
        lane
    }
}

impl RunnerState {
    /// Bounds that the fixed-point model keeps.
    pub open spec fn wf(&self) -> bool {
        &&& self.split_times.wf()
        &&& -MAX_DISTANCE <= self.distance <= MAX_DISTANCE
        &&& self.lane_position <= MAX_LANE
        &&& self.current_speed <= MAX_SPEED
        &&& self.target_speed <= MAX_SPEED
        &&& self.animation_phase < UNIT
        &&& self.stride_multiplier <= MAX_STRIDE
    }

    /// Whether the runner is done after this tick's check.
    pub open spec fn finishes(&self, race_distance: int) -> bool {
        self.flags.finished || self.distance >= race_distance
    }

    /// The target speed chosen during a tick; half the last segment's pace
    /// once finished.
    pub open spec fn tick_target(&self, time_scale: int, race_distance: int) -> int {
        if self.finishes(race_distance) {
            self.split_times.target_speed_spec(race_distance - METER, time_scale) / 2
        } else {
            self.split_times.target_speed_spec(self.distance as int, time_scale)
        }
    }

    /// The runner after one tick of `delta` microseconds.
    pub open spec fn stepped(&self, delta: int, time_scale: int, race_distance: int) -> Self {
        let target = self.tick_target(time_scale, race_distance);
        let speed = approach(
            self.current_speed as int,
            target,
            ACCELERATION_RATE * delta,
        );
        RunnerState {
            id: self.id,
            name: self.name,
            distance: advance(self.distance as int, speed, delta) as i64,
            lane_position: drift_lane(self.lane_position as int, delta) as u64,
            current_speed: speed as u64,
            target_speed: target as u64,
            animation_phase: next_phase(
                self.animation_phase as int,
                speed,
                self.stride_multiplier as int,
                delta,
            ) as u64,
            stride_multiplier: self.stride_multiplier,
            split_times: self.split_times,
            flags: RunnerFlags {
                finished: self.finishes(race_distance),
                squished: self.flags.squished,
            },
        }
    }

    /// A fresh runner at the start line, in lane 1.0, with a random animation
    /// phase, a random stride multiplier in `[0.85, 1.15)` and a pacing curve
    /// for `finish_time` (milliseconds).
    pub fn new(id: u32, name: String, finish_time: u64) -> (r: Self)
        requires
            MIN_FINISH_TIME <= finish_time <= MAX_FINISH_TIME,
        ensures
            r.wf(),
            r.id == id,
            r.name == name,
            r.distance == 0,
            r.lane_position == UNIT,
            r.current_speed == 0,
            r.target_speed == 0,
            850_000 <= r.stride_multiplier < 1_150_000,
            r.split_times.final_time == finish_time,
            !r.flags.finished,
            !r.flags.squished,
    {
        let phase = random_below(UNIT);
        let stride = 850_000 + random_below(300_000);
        RunnerState {
            id,
            name,
            distance: 0,
            lane_position: UNIT,
            current_speed: 0,
            target_speed: 0,
            animation_phase: phase,
            stride_multiplier: stride,
            split_times: SplitTimes::from_finish_time(finish_time),
            flags: RunnerFlags { finished: false, squished: false },
        }
    }

    /// Puts the runner back at rest at `start_distance` in lane `start_lane`,
    /// with a fresh random animation phase and cleared flags.
    pub fn reset(&mut self, start_distance: i64, start_lane: u64)
        requires
            old(self).wf(),
            -MAX_DISTANCE <= start_distance <= MAX_DISTANCE,
            start_lane <= MAX_LANE,
        ensures
            final(self).wf(),
            final(self).id == old(self).id,
            final(self).name == old(self).name,
            final(self).distance == start_distance,
            final(self).lane_position == start_lane,
            final(self).current_speed == 0,
            final(self).target_speed == 0,
            final(self).stride_multiplier == old(self).stride_multiplier,
            final(self).split_times == old(self).split_times,
            !final(self).flags.finished,
            !final(self).flags.squished,
    {
        self.distance = start_distance;
        self.lane_position = start_lane;
        self.current_speed = 0;
        self.target_speed = 0;
        self.animation_phase = random_below(UNIT);
        self.flags = RunnerFlags { finished: false, squished: false };
    }
}

/// Per-tick runner physics.
pub struct Runner;

impl Runner {
    /// Advances one runner by a tick of `delta` microseconds: finish check,
    /// target speed, bounded acceleration, movement, animation and lane drift.
    pub fn update(state: &mut RunnerState, delta: u64, time_scale: u64, race_distance: i64)
        requires
            old(state).wf(),
            delta <= MAX_TICK,
            0 <= race_distance <= MAX_DISTANCE,
        ensures
            *final(state) == old(state).stepped(delta as int, time_scale as int, race_distance as int),
            final(state).wf(),
    {
        let ghost before = *state;
        let finished = state.flags.finished || state.distance >= race_distance;
        state.flags.finished = finished;
        let target = if finished {
            state.split_times.get_target_speed(race_distance - METER, time_scale) / 2
        } else {
            state.split_times.get_target_speed(state.distance, time_scale)
        };
        state.target_speed = target;

        let accel = ACCELERATION_RATE * delta;
        let current = state.current_speed;
        let speed = if current < target {
            if current + accel < target { current + accel } else { target }
        } else if current > target {
            if current - target > accel { current - accel } else { target }
        } else {
            current
        };
        state.current_speed = speed;

        assert(speed as int * delta as int <= MAX_SPEED as int * MAX_TICK as int) by (nonlinear_arith)
            requires
                speed <= MAX_SPEED,
                delta <= MAX_TICK,
        ;
        let step = (speed as u128 * delta as u128 / 1_000_000) as i64;
        state.distance = if step > MAX_DISTANCE - state.distance {
            MAX_DISTANCE
        } else {
            state.distance + step
        };

        let scaled = speed as u128 * 3 / 25;
        let rate = if scaled < ANIMATION_FLOOR as u128 { ANIMATION_FLOOR as u128 } else { scaled };
        assert(delta as int * rate as int <= MAX_TICK as int * MAX_SPEED as int) by (nonlinear_arith)
            requires
                delta <= MAX_TICK,
                rate <= MAX_SPEED,
        ;
        assert(delta as int * rate as int * state.stride_multiplier as int
            <= MAX_TICK as int * MAX_SPEED as int * MAX_STRIDE as int) by (nonlinear_arith)
            requires
                delta * rate <= MAX_TICK * MAX_SPEED,
                state.stride_multiplier <= MAX_STRIDE,
        ;
        let advance = delta as u128 * rate * state.stride_multiplier as u128 / 1_000_000_000_000;
        state.animation_phase = ((state.animation_phase as u128 + advance) % UNIT as u128) as u64;

        if state.lane_position > MIN_LANE {
            assert(state.lane_position as int * DRIFT_PER_SECOND as int * delta as int
                <= MAX_LANE as int * DRIFT_PER_SECOND as int * MAX_TICK as int) by (nonlinear_arith)
                requires
                    state.lane_position <= MAX_LANE,
                    delta <= MAX_TICK,
            ;
            let drift = state.lane_position as u128 * DRIFT_PER_SECOND as u128 * delta as u128
                / 100_000_000;
            state.lane_position = if drift > (state.lane_position - MIN_LANE) as u128 {
                MIN_LANE
            } else {
                state.lane_position - drift as u64
            };
        }
        assert(*state == before.stepped(delta as int, time_scale as int, race_distance as int));
    }
}

/// Compact runner state for transfer to a presentation layer.
#[derive(Debug, Clone, Copy, PartialEq, Eq)]
pub struct RunnerSnapshot {
    pub id: u32,
    pub distance: i64,
    pub lane_position: u64,
    pub speed: u64,
    pub animation_phase: u64,
    pub finished: bool,
}

impl RunnerSnapshot {
    /// The snapshot that a runner's state gives.
    pub open spec fn of(state: RunnerState) -> RunnerSnapshot {
        RunnerSnapshot {
            id: state.id,
            distance: state.distance,
            lane_position: state.lane_position,
            speed: state.current_speed,
            animation_phase: state.animation_phase,
            finished: state.flags.finished,
        }
    }

    /// Takes the transferred fields of a runner.
    pub fn from(state: &RunnerState) -> (r: Self)
        ensures
            r == Self::of(*state),
    {
        RunnerSnapshot {
            id: state.id,
            distance: state.distance,
            lane_position: state.lane_position,
            speed: state.current_speed,
            animation_phase: state.animation_phase,
            finished: state.flags.finished,
        }
    }
}

/// A pacing curve never asks for a negative speed, nor for more than `MAX_SPEED`.
pub proof fn lemma_target_speed_bounded(curve: SplitTimes, distance: int, time_scale: int)
    requires
        curve.wf(),
        time_scale >= 0,
    ensures
        0 <= curve.target_speed_spec(distance, time_scale) <= MAX_SPEED,
{
    if time_scale > 0 {
        let seg = SplitTimes::segment_index(distance);
        let duration = curve.segment_duration(seg);
        assert(0 <= seg <= 4);
        assert(duration >= 1);
        let denom = duration * time_scale;
        assert(denom >= 1) by (nonlinear_arith)
            requires
                denom == duration * time_scale,
                duration >= 1,
                time_scale >= 1,
        ;
        assert(0 <= SPEED_NUMERATOR as int / denom <= SPEED_NUMERATOR as int) by (nonlinear_arith)
            requires
                denom >= 1,
        ;
    }
}

/// In one tick a runner's speed moves toward the tick's target speed by at
/// most the acceleration rate times the tick length, and never past it.
pub proof fn lemma_speed_moves_toward_target(
    runner: RunnerState,
    delta: int,
    time_scale: int,
    race_distance: int,
)
    requires
        runner.wf(),
        0 <= delta,
        0 <= time_scale,
    ensures
        ({
            let next = runner.stepped(delta, time_scale, race_distance);
            let before = runner.current_speed as int;
            let after = next.current_speed as int;
            let target = next.target_speed as int;
            &&& before - ACCELERATION_RATE * delta <= after <= before + ACCELERATION_RATE * delta
            &&& before <= target ==> before <= after <= target
            &&& target <= before ==> target <= after <= before
        }),
{
    lemma_target_speed_bounded(runner.split_times, race_distance - METER, time_scale);
    lemma_target_speed_bounded(runner.split_times, runner.distance as int, time_scale);
}

/// A runner that has finished is still finished after any tick.
pub proof fn lemma_finished_is_kept(runner: RunnerState, delta: int, time_scale: int, race_distance: int)
    requires
        runner.flags.finished,
    ensures
        runner.stepped(delta, time_scale, race_distance).flags.finished,
{
}

} // verus!
