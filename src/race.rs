//! A race: configuration, roster, the race state machine and the finish order.

use crate::random::{decimal, decimal_text, random_below};
use crate::runner::{
    MAX_DISTANCE, MAX_TICK, Runner, RunnerSnapshot, RunnerState,
};
use vstd::prelude::*;
use vstd::string::*;

verus! {

/// Length of the countdown before the start, in real microseconds.
pub const COUNTDOWN: i64 = 3_000_000;

/// Largest roster the fixed-point model holds.
pub const MAX_RUNNERS: u32 = 1_000_000;

/// Largest spacing between grid rows, in micrometres.
pub const MAX_SPREAD: u64 = 1_000_000_000_000;

/// Runners per grid row.
pub const ROW_SIZE: usize = 10;

/// Race configuration.
#[derive(Debug, Clone, Copy, PartialEq, Eq)]
pub struct RaceConfig {
    /// Race distance, in micrometres.
    pub distance: u64,
    pub runner_count: u32,
    /// In-race seconds per real second, in thousandths.
    pub time_scale: u64,
    /// Spacing between starting grid rows, in micrometres.
    pub formation_spread: u64,
}

impl RaceConfig {
    /// Values that the fixed-point model holds.
    pub open spec fn within_limits(&self) -> bool {
        &&& self.distance <= MAX_DISTANCE
        &&& self.runner_count <= MAX_RUNNERS
        &&& self.formation_spread <= MAX_SPREAD
    }
}

impl Default for RaceConfig {
    /// A 5 km race of 100 runners at time scale 10 with 3 m between rows.
    fn default() -> (r: Self)
        ensures
            r.distance == 5_000_000_000,
            r.runner_count == 100,
            r.time_scale == 10_000,
            r.formation_spread == 3_000_000,
    {
        RaceConfig {
            distance: 5_000_000_000,
            runner_count: 100,
            time_scale: 10_000,
            formation_spread: 3_000_000,
        }
    }
}

/// Race status.
#[derive(Debug, Clone, Copy, PartialEq, Eq, Structural)]
pub enum RaceStatus {
    NotStarted,
    Countdown,
    Racing,
    Finished,
}

/// Position of a status along the race's one-way progression.
pub open spec fn status_rank(s: RaceStatus) -> int {
    match s {
        RaceStatus::NotStarted => 0,
        RaceStatus::Countdown => 1,
        RaceStatus::Racing => 2,
        RaceStatus::Finished => 3,
    }
}

/// One entry of the finish order.
#[derive(Debug, Clone, PartialEq, Eq)]
pub struct RaceResult {
    pub runner_id: u32,
    pub runner_name: String,
    /// In-race time of the crossing, in microseconds.
    pub finish_time: u64,
    /// 1-based place.
    pub position: u32,
}

/// Number of finished runners in a roster.
pub open spec fn num_finished(runners: Seq<RunnerState>) -> nat
    decreases runners.len(),
{
    if runners.len() == 0 {
        0
    } else {
        num_finished(runners.drop_last()) + if runners.last().flags.finished {
            1nat
        } else {
            0nat
        }
    }
}

/// The finish order agrees with the roster: one entry per finished runner,
/// each naming a distinct finished runner, positions counting up from 1 and
/// times never decreasing nor passing the race clock.
pub open spec fn results_consistent(
    runners: Seq<RunnerState>,
    order: Seq<RaceResult>,
    elapsed: int,
) -> bool {
    &&& order.len() == num_finished(runners)
    &&& forall|k: int|
        #![trigger order[k]]
        0 <= k < order.len() ==> {
            &&& order[k].runner_id < runners.len()
            &&& runners[order[k].runner_id as int].flags.finished
            &&& order[k].runner_name == runners[order[k].runner_id as int].name
            &&& order[k].position == k + 1
            &&& order[k].finish_time <= elapsed
        }
    &&& forall|j: int, k: int|
        0 <= j < k < order.len() ==> {
            &&& #[trigger] order[j].runner_id != #[trigger] order[k].runner_id
            &&& order[j].finish_time <= order[k].finish_time
        }
}

/// Every runner is well formed and carries its roster index as id.
pub open spec fn roster_wf(runners: Seq<RunnerState>) -> bool {
    forall|i: int|
        0 <= i < runners.len() ==> (#[trigger] runners[i]).wf() && runners[i].id == i
}

/// The runner after one racing tick: finished runners stand still.
pub open spec fn racing_step(r: RunnerState, delta: int, time_scale: int, distance: int) -> RunnerState {
    if r.flags.finished {
        r
    } else {
        r.stepped(delta, time_scale, distance)
    }
}

/// The race clock after a tick of `delta` real microseconds, saturating.
pub open spec fn advanced_clock(elapsed: int, delta: int, time_scale: int) -> int {
    let gained = delta * time_scale / 1000;
    if elapsed + gained > u64::MAX { u64::MAX as int } else { elapsed + gained }
}

proof fn lemma_num_finished_bounded(runners: Seq<RunnerState>)
    ensures
        num_finished(runners) <= runners.len(),
        num_finished(runners) == runners.len() ==> forall|i: int|
            0 <= i < runners.len() ==> (#[trigger] runners[i]).flags.finished,
    decreases runners.len(),
{
    if runners.len() > 0 {
        lemma_num_finished_bounded(runners.drop_last());
        assert forall|i: int| 0 <= i < runners.len() - 1 implies #[trigger] runners[i]
            == runners.drop_last()[i] by {}
    }
}

proof fn lemma_num_finished_update(runners: Seq<RunnerState>, i: int, r: RunnerState)
    requires
        0 <= i < runners.len(),
    ensures
        num_finished(runners.update(i, r)) + (if runners[i].flags.finished { 1int } else { 0 })
            == num_finished(runners) + (if r.flags.finished { 1int } else { 0 }),
    decreases runners.len(),
{
    let u = runners.update(i, r);
    if i == runners.len() - 1 {
        assert(u.drop_last() =~= runners.drop_last());
    } else {
        assert(u.drop_last() =~= runners.drop_last().update(i, r));
        lemma_num_finished_update(runners.drop_last(), i, r);
    }
}

proof fn lemma_num_finished_same_flags(a: Seq<RunnerState>, b: Seq<RunnerState>)
    requires
        a.len() == b.len(),
        forall|i: int| 0 <= i < a.len() ==> (#[trigger] a[i]).flags.finished == b[i].flags.finished,
    ensures
        num_finished(a) == num_finished(b),
    decreases a.len(),
{
    if a.len() > 0 {
        assert forall|i: int| 0 <= i < a.len() - 1 implies (#[trigger] a.drop_last()[i]).flags.finished
            == b.drop_last()[i].flags.finished by {
            assert(a.drop_last()[i] == a[i]);
            assert(b.drop_last()[i] == b[i]);
        }
        lemma_num_finished_same_flags(a.drop_last(), b.drop_last());
    }
}

proof fn lemma_none_finished(runners: Seq<RunnerState>)
    requires
        forall|i: int| 0 <= i < runners.len() ==> !(#[trigger] runners[i]).flags.finished,
    ensures
        num_finished(runners) == 0,
    decreases runners.len(),
{
    if runners.len() > 0 {
        assert forall|i: int| 0 <= i < runners.len() - 1 implies !(
        #[trigger] runners.drop_last()[i]).flags.finished by {
            assert(runners.drop_last()[i] == runners[i]);
        }
        lemma_none_finished(runners.drop_last());
    }
}

/// Compact race state for transfer to a presentation layer.
#[derive(Debug, Clone, PartialEq, Eq)]
pub struct RaceSnapshot {
    pub status: RaceStatus,
    pub elapsed_time: u64,
    pub countdown: i64,
    pub runners: Vec<RunnerSnapshot>,
    pub finisher_count: u32,
}

/// Two snapshots of one race state hold the same data: reading a snapshot
/// again without a tick in between gives back the same values.
pub proof fn lemma_snapshot_is_determined(race: Race, a: RaceSnapshot, b: RaceSnapshot)
    requires
        race.snapshot_matches(a),
        race.snapshot_matches(b),
    ensures
        a.status == b.status,
        a.elapsed_time == b.elapsed_time,
        a.countdown == b.countdown,
        a.finisher_count == b.finisher_count,
        a.runners@ == b.runners@,
{
    assert(a.runners@ =~= b.runners@);
}

/// The finish order of any well-formed race never outgrows the roster,
/// numbers positions 1, 2, ... in append order, names each runner at most
/// once and never goes back in time.
pub proof fn lemma_finish_order_well_ordered(race: Race)
    requires
        race.wf(),
    ensures
        race.finish_order@.len() <= race.runners@.len(),
        forall|k: int|
            0 <= k < race.finish_order@.len() ==> (#[trigger] race.finish_order@[k]).position == k
                + 1,
        forall|j: int, k: int|
            0 <= j < k < race.finish_order@.len() ==> (#[trigger] race.finish_order@[j]).runner_id
                != (#[trigger] race.finish_order@[k]).runner_id,
        forall|j: int, k: int|
            0 <= j < k < race.finish_order@.len() ==> (#[trigger] race.finish_order@[j]).finish_time
                <= (#[trigger] race.finish_order@[k]).finish_time,
{
    lemma_num_finished_bounded(race.runners@);
}

/// Runners who cross the line in a later tick get a strictly later finish
/// time, whenever the tick moves the race clock (ties remain possible only
/// among runners crossing within one tick).
pub proof fn lemma_later_ticks_later_times(race: Race, next: Race, delta: int)
    requires
        race.wf(),
        race.status == RaceStatus::Racing,
        race.advanced(next, delta),
        delta * race.config.time_scale / 1000 >= 1,
        race.elapsed_time + delta * race.config.time_scale / 1000 <= u64::MAX,
    ensures
        forall|j: int, k: int|
            0 <= j < race.finish_order@.len() <= k < next.finish_order@.len() ==> (
            #[trigger] next.finish_order@[j]).finish_time < (
            #[trigger] next.finish_order@[k]).finish_time,
{
    let base = race.finish_order@.len() as int;
    assert forall|j: int, k: int|
        0 <= j < race.finish_order@.len() <= k < next.finish_order@.len() implies (
        #[trigger] next.finish_order@[j]).finish_time < (
        #[trigger] next.finish_order@[k]).finish_time by {
        assert(next.finish_order@.subrange(0, base)[j] == next.finish_order@[j]);
        assert(race.finish_order@[j].finish_time <= race.elapsed_time);
    }
}

/// Statuses `a` then `b` are one permitted move: forward by at most one step.
pub open spec fn status_step(a: RaceStatus, b: RaceStatus) -> bool {
    status_rank(a) <= status_rank(b) <= status_rank(a) + 1
}

proof fn lemma_rank_monotone(trace: Seq<RaceStatus>, a: int, b: int)
    requires
        forall|i: int| 0 <= i < trace.len() - 1 ==> status_step(#[trigger] trace[i], trace[i + 1]),
        0 <= a <= b < trace.len(),
    ensures
        status_rank(trace[a]) <= status_rank(trace[b]),
    decreases b - a,
{
    if a < b {
        lemma_rank_monotone(trace, a, b - 1);
        assert(status_step(trace[b - 1], trace[b]));
    }
}

/// Along any run of updates (each a permitted move, as `update` ensures), a
/// forward transition such as Countdown to Racing or Racing to Finished
/// happens at most once.
pub proof fn lemma_transition_happens_once(
    trace: Seq<RaceStatus>,
    from: RaceStatus,
    to: RaceStatus,
    j: int,
    k: int,
)
    requires
        forall|i: int| 0 <= i < trace.len() - 1 ==> status_step(#[trigger] trace[i], trace[i + 1]),
        status_rank(from) < status_rank(to),
        0 <= j < k < trace.len() - 1,
        trace[j] == from,
        trace[j + 1] == to,
    ensures
        !(trace[k] == from && trace[k + 1] == to),
{
    lemma_rank_monotone(trace, j + 1, k);
}

/// Fastest target finish time that roster generation draws, in milliseconds.
pub const FASTEST_FINISH: u64 = 780_000;

/// Bound above every target finish time that roster generation draws.
pub const SLOWEST_FINISH: u64 = 2_100_000;

/// The name of the runner in roster slot `n - 1`: "Runner n".
pub open spec fn runner_name(n: nat) -> Seq<char> {
    seq!['R', 'u', 'n', 'n', 'e', 'r', ' '] + decimal(n)
}

/// Whether `t` lies in the finish-time band of roster draw `i`.
pub open spec fn in_band(i: int, t: int) -> bool {
    let decile = i % 10;
    if decile == 0 {
        780_000 <= t < 840_000
    } else if decile <= 2 {
        900_000 <= t < 1_080_000
    } else if decile <= 6 {
        1_140_000 <= t < 1_500_000
    } else {
        1_560_000 <= t < 2_100_000
    }
}

/// Relies on `slice::sort_unstable`: the same values, reordered ascending.
#[verifier::external_body]
fn sort_ascending(v: &mut Vec<u64>)
    ensures
        final(v)@.len() == old(v)@.len(),
        final(v)@.to_multiset() == old(v)@.to_multiset(),
        forall|i: int, j: int|
            0 <= i < j < final(v)@.len() ==> #[trigger] final(v)@[i] <= #[trigger] final(v)@[j],
{
    v.sort_unstable();
}

/// Complete race state.
#[derive(Debug)]
pub struct Race {
    pub config: RaceConfig,
    pub status: RaceStatus,
    pub runners: Vec<RunnerState>,
    /// In-race time since the start, in microseconds.
    pub elapsed_time: u64,
    /// Countdown left, in real microseconds.
    pub countdown: i64,
    pub finish_order: Vec<RaceResult>,
}

impl Race {
    pub open spec fn wf(&self) -> bool {
        &&& self.config.within_limits()
        &&& self.runners@.len() <= MAX_RUNNERS
        &&& roster_wf(self.runners@)
        &&& results_consistent(self.runners@, self.finish_order@, self.elapsed_time as int)
        &&& 0 <= self.countdown <= COUNTDOWN
        &&& self.status == RaceStatus::Finished ==> forall|i: int|
            0 <= i < self.runners@.len() ==> (#[trigger] self.runners@[i]).flags.finished
    }

    /// A race that has not started, with no runners yet.
    pub fn new(config: RaceConfig) -> (r: Self)
        requires
            config.within_limits(),
        ensures
            r.wf(),
            r.config == config,
            r.status == RaceStatus::NotStarted,
            r.runners@.len() == 0,
            r.elapsed_time == 0,
            r.countdown == COUNTDOWN,
            r.finish_order@.len() == 0,
    {
        Race {
            config,
            status: RaceStatus::NotStarted,
            runners: Vec::new(),
            elapsed_time: 0,
            countdown: COUNTDOWN,
            finish_order: Vec::new(),
        }
    }

    /// How one `update` by `delta` real microseconds changes the race.
    pub open spec fn advanced(&self, next: Race, delta: int) -> bool {
        &&& next.wf()
        &&& next.config == self.config
        &&& next.runners@.len() == self.runners@.len()
        &&& status_step(self.status, next.status)
        &&& forall|i: int|
            0 <= i < self.runners@.len() && self.runners@[i].flags.finished
                ==> (#[trigger] next.runners@[i]).flags.finished
        &&& self.status == RaceStatus::NotStarted ==> next == *self
        &&& self.status == RaceStatus::Countdown ==> {
            &&& next.runners == self.runners
            &&& next.finish_order == self.finish_order
            &&& next.elapsed_time == self.elapsed_time
            &&& if self.countdown - delta <= 0 {
                next.status == RaceStatus::Racing && next.countdown == 0
            } else {
                next.status == RaceStatus::Countdown && next.countdown == self.countdown - delta
            }
        }
        &&& self.status == RaceStatus::Racing ==> {
            &&& next.elapsed_time == advanced_clock(
                self.elapsed_time as int,
                delta,
                self.config.time_scale as int,
            )
            &&& next.countdown == self.countdown
            &&& forall|i: int|
                0 <= i < self.runners@.len() ==> #[trigger] next.runners@[i] == racing_step(
                    self.runners@[i],
                    delta,
                    self.config.time_scale as int,
                    self.config.distance as int,
                )
            &&& self.finish_order@.len() <= next.finish_order@.len()
            &&& next.finish_order@.subrange(0, self.finish_order@.len() as int)
                == self.finish_order@
            &&& forall|k: int|
                self.finish_order@.len() <= k < next.finish_order@.len()
                    ==> (#[trigger] next.finish_order@[k]).finish_time == next.elapsed_time
            &&& forall|j: int, k: int|
                self.finish_order@.len() <= j < k < next.finish_order@.len()
                    ==> (#[trigger] next.finish_order@[j]).runner_id
                    < (#[trigger] next.finish_order@[k]).runner_id
            &&& if next.finish_order@.len() == next.runners@.len() {
                next.status == RaceStatus::Finished
            } else {
                next.status == RaceStatus::Racing
            }
        }
        &&& self.status == RaceStatus::Finished ==> {
            &&& next.status == RaceStatus::Finished
            &&& next.finish_order == self.finish_order
            &&& next.elapsed_time == self.elapsed_time
            &&& next.countdown == self.countdown
            &&& forall|i: int|
                0 <= i < self.runners@.len() ==> #[trigger] next.runners@[i]
                    == self.runners@[i].stepped(
                    delta,
                    self.config.time_scale as int,
                    self.config.distance as int,
                )
        }
    }

    /// Advances the race by a tick of `delta` real microseconds.
    ///
    /// The countdown runs on real time; once it reaches zero the race starts.
    /// While racing, the clock advances by `delta` times the time scale, every
    /// unfinished runner takes a step in roster order, and each runner that
    /// crosses the line is appended to the finish order at the current race
    /// time; once everyone is in, the race is finished. A finished race keeps
    /// moving its runners (a cooldown glide) and nothing else.
    pub fn update(&mut self, delta: u64)
        requires
            old(self).wf(),
            delta <= MAX_TICK,
        ensures
            old(self).advanced(*final(self), delta as int),
    {
        match self.status {
            RaceStatus::NotStarted => {},
            RaceStatus::Countdown => {
                self.countdown = self.countdown - delta as i64;
                if self.countdown <= 0 {
                    self.status = RaceStatus::Racing;
                    self.countdown = 0;
                }
            },
            RaceStatus::Racing => {
                self.advance_racing(delta);
            },
            RaceStatus::Finished => {
                self.advance_cooldown(delta);
            },
        }
    }

    /// The racing branch of `update`.
    fn advance_racing(&mut self, delta: u64)
        requires
            old(self).wf(),
            old(self).status == RaceStatus::Racing,
            delta <= MAX_TICK,
        ensures
            final(self).wf(),
            final(self).config == old(self).config,
            final(self).runners@.len() == old(self).runners@.len(),
            final(self).elapsed_time == advanced_clock(
                old(self).elapsed_time as int,
                delta as int,
                old(self).config.time_scale as int,
            ),
            final(self).countdown == old(self).countdown,
            forall|i: int|
                0 <= i < old(self).runners@.len() ==> #[trigger] final(self).runners@[i]
                    == racing_step(
                    old(self).runners@[i],
                    delta as int,
                    old(self).config.time_scale as int,
                    old(self).config.distance as int,
                ),
            old(self).finish_order@.len() <= final(self).finish_order@.len(),
            final(self).finish_order@.subrange(0, old(self).finish_order@.len() as int)
                == old(self).finish_order@,
            forall|k: int|
                old(self).finish_order@.len() <= k < final(self).finish_order@.len()
                    ==> (#[trigger] final(self).finish_order@[k]).finish_time
                    == final(self).elapsed_time,
            forall|j: int, k: int|
                old(self).finish_order@.len() <= j < k < final(self).finish_order@.len()
                    ==> (#[trigger] final(self).finish_order@[j]).runner_id
                    < (#[trigger] final(self).finish_order@[k]).runner_id,
            if final(self).finish_order@.len() == final(self).runners@.len() {
                final(self).status == RaceStatus::Finished
            } else {
                final(self).status == RaceStatus::Racing
            },
    {
        let time_scale = self.config.time_scale;
        let distance = self.config.distance as i64;
        assert(delta as int * time_scale as int <= MAX_TICK as int * u64::MAX as int) by (nonlinear_arith)
            requires
                delta <= MAX_TICK,
                time_scale <= u64::MAX,
        ;
        let gained: u128 = delta as u128 * time_scale as u128 / 1000;
        self.elapsed_time = if gained > (u64::MAX - self.elapsed_time) as u128 {
            u64::MAX
        } else {
            self.elapsed_time + gained as u64
        };
        let ghost start = *self;
        let ghost base = self.finish_order@.len();
        let n = self.runners.len();
        let mut i: usize = 0;
        while i < n
            invariant
                0 <= i <= n,
                delta <= MAX_TICK,
                n == self.runners@.len(),
                n <= MAX_RUNNERS,
                distance == self.config.distance,
                time_scale == self.config.time_scale,
                self.config == start.config,
                self.config.within_limits(),
                self.status == RaceStatus::Racing,
                self.elapsed_time == start.elapsed_time,
                self.countdown == start.countdown,
                start.runners@.len() == n,
                forall|j: int|
                    0 <= j < i ==> #[trigger] self.runners@[j] == racing_step(
                        start.runners@[j],
                        delta as int,
                        time_scale as int,
                        distance as int,
                    ),
                forall|j: int| i <= j < n ==> #[trigger] self.runners@[j] == start.runners@[j],
                roster_wf(self.runners@),
                results_consistent(self.runners@, self.finish_order@, self.elapsed_time as int),
                base == start.finish_order@.len(),
                base <= self.finish_order@.len(),
                self.finish_order@.subrange(0, base as int) == start.finish_order@,
                forall|k: int|
                    base <= k < self.finish_order@.len() ==> (#[trigger] self.finish_order@[k]).finish_time
                        == self.elapsed_time && self.finish_order@[k].runner_id < i,
                forall|j: int, k: int|
                    base <= j < k < self.finish_order@.len() ==> (
                    #[trigger] self.finish_order@[j]).runner_id
                        < (#[trigger] self.finish_order@[k]).runner_id,
            decreases n - i,
        {
            if !self.runners[i].flags.finished {
                let ghost before = self.runners@;
                let ghost order = self.finish_order@;
                Runner::update(&mut self.runners[i], delta, time_scale, distance);
                proof {
                    lemma_num_finished_update(before, i as int, self.runners@[i as int]);
                    assert(self.runners@ == before.update(i as int, self.runners@[i as int]));
                    assert forall|k: int| 0 <= k < order.len() implies #[trigger] order[k].runner_id
                        != i by {
                        assert(before[order[k].runner_id as int].flags.finished);
                    }
                }
                if self.runners[i].flags.finished {
                    proof {
                        lemma_num_finished_bounded(self.runners@);
                    }
                    let position = (self.finish_order.len() + 1) as u32;
                    let runner_name = self.runners[i].name.clone();
                    let result = RaceResult {
                        runner_id: self.runners[i].id,
                        runner_name,
                        finish_time: self.elapsed_time,
                        position,
                    };
                    self.finish_order.push(result);
                    proof {
                        assert(self.finish_order@ == order.push(result));
                        assert(self.finish_order@.subrange(0, base as int) =~= order.subrange(
                            0,
                            base as int,
                        ));
                    }
                }
            }
            i += 1;
        }
        if self.finish_order.len() == self.runners.len() {
            proof {
                lemma_num_finished_bounded(self.runners@);
            }
            self.status = RaceStatus::Finished;
        }
    }

    /// The finished branch of `update`: every runner glides on.
    fn advance_cooldown(&mut self, delta: u64)
        requires
            old(self).wf(),
            old(self).status == RaceStatus::Finished,
            delta <= MAX_TICK,
        ensures
            final(self).wf(),
            final(self).config == old(self).config,
            final(self).status == RaceStatus::Finished,
            final(self).runners@.len() == old(self).runners@.len(),
            final(self).finish_order == old(self).finish_order,
            final(self).elapsed_time == old(self).elapsed_time,
            final(self).countdown == old(self).countdown,
            forall|i: int|
                0 <= i < old(self).runners@.len() ==> #[trigger] final(self).runners@[i]
                    == old(self).runners@[i].stepped(
                    delta as int,
                    old(self).config.time_scale as int,
                    old(self).config.distance as int,
                ),
    {
        let time_scale = self.config.time_scale;
        let distance = self.config.distance as i64;
        let ghost start = *self;
        let n = self.runners.len();
        let mut i: usize = 0;
        while i < n
            invariant
                0 <= i <= n,
                delta <= MAX_TICK,
                n == self.runners@.len(),
                start.runners@.len() == n,
                distance == self.config.distance,
                time_scale == self.config.time_scale,
                self.config == start.config,
                self.config.within_limits(),
                self.status == start.status,
                self.elapsed_time == start.elapsed_time,
                self.countdown == start.countdown,
                self.finish_order == start.finish_order,
                forall|j: int|
                    0 <= j < i ==> #[trigger] self.runners@[j] == start.runners@[j].stepped(
                        delta as int,
                        time_scale as int,
                        distance as int,
                    ),
                forall|j: int| i <= j < n ==> #[trigger] self.runners@[j] == start.runners@[j],
                forall|j: int| 0 <= j < n ==> (#[trigger] self.runners@[j]).flags.finished,
                roster_wf(self.runners@),
            decreases n - i,
        {
            Runner::update(&mut self.runners[i], delta, time_scale, distance);
            i += 1;
        }
        proof {
            lemma_num_finished_same_flags(start.runners@, self.runners@);
        }
    }

    /// Fills the roster with `runner_count` runners, ids `0..`, named
    /// "Runner 1", "Runner 2", ..., their target finish times drawn by
    /// `generate_finish_times` (fastest first).
    pub fn generate_runners(&mut self)
        requires
            old(self).wf(),
            old(self).finish_order@.len() == 0,
            old(self).status != RaceStatus::Finished,
        ensures
            final(self).wf(),
            final(self).config == old(self).config,
            final(self).status == old(self).status,
            final(self).elapsed_time == old(self).elapsed_time,
            final(self).countdown == old(self).countdown,
            final(self).finish_order@.len() == 0,
            final(self).runners@.len() == old(self).config.runner_count,
            forall|i: int|
                0 <= i < final(self).runners@.len() ==> {
                    let r = #[trigger] final(self).runners@[i];
                    &&& r.name@ == runner_name((i + 1) as nat)
                    &&& !r.flags.finished
                    &&& r.distance == 0
                    &&& FASTEST_FINISH <= r.split_times.final_time < SLOWEST_FINISH
                },
            forall|i: int, j: int|
                0 <= i < j < final(self).runners@.len() ==> final(self).runners@[i].split_times.final_time
                    <= final(self).runners@[j].split_times.final_time,
    {
        self.runners.clear();
        let count = self.config.runner_count as usize;
        let times = Self::generate_finish_times(count);
        let ghost start = *self;
        let mut i: usize = 0;
        while i < count
            invariant
                0 <= i <= count,
                self.config == start.config,
                self.config.within_limits(),
                self.status == start.status,
                self.status != RaceStatus::Finished,
                self.elapsed_time == start.elapsed_time,
                self.countdown == start.countdown,
                0 <= self.countdown <= COUNTDOWN,
                count == self.config.runner_count,
                count <= MAX_RUNNERS,
                times@.len() == count,
                forall|k: int| 0 <= k < count ==> FASTEST_FINISH <= #[trigger] times@[k] < SLOWEST_FINISH,
                forall|a: int, b: int| 0 <= a < b < count ==> #[trigger] times@[a] <= #[trigger] times@[b],
                self.runners@.len() == i,
                self.finish_order@.len() == 0,
                roster_wf(self.runners@),
                forall|k: int|
                    0 <= k < i ==> {
                        let r = #[trigger] self.runners@[k];
                        &&& r.name@ == runner_name((k + 1) as nat)
                        &&& !r.flags.finished
                        &&& r.distance == 0
                        &&& r.split_times.final_time == times@[k]
                    },
            decreases count - i,
        {
            let label = decimal_text(i as u64 + 1);
            let name = String::from_str("Runner ").concat(label.as_str());
            proof {
                reveal_strlit("Runner ");
            }
            let runner = RunnerState::new(i as u32, name, times[i]);
            self.runners.push(runner);
            i += 1;
        }
        proof {
            lemma_none_finished(self.runners@);
            assert forall|a: int, b: int| 0 <= a < b < self.runners@.len() implies (
            #[trigger] self.runners@[a]).split_times.final_time <= (
            #[trigger] self.runners@[b]).split_times.final_time by {
                assert(times@[a] <= times@[b]);
            }
        }
    }

    /// Draws `count` target finish times (milliseconds) by deciles — 10% elite
    /// (13–14 min), 20% good (15–18 min), 40% average (19–25 min), 30% slow
    /// (26–35 min) — and sorts them fastest first.
    pub fn generate_finish_times(count: usize) -> (r: Vec<u64>)
        requires
            count <= MAX_RUNNERS,
        ensures
            r@.len() == count,
            forall|i: int, j: int| 0 <= i < j < count ==> #[trigger] r@[i] <= #[trigger] r@[j],
            forall|i: int| 0 <= i < count ==> FASTEST_FINISH <= #[trigger] r@[i] < SLOWEST_FINISH,
            exists|draws: Seq<u64>|
                {
                    &&& draws.len() == count
                    &&& forall|i: int| 0 <= i < count ==> in_band(i, #[trigger] draws[i] as int)
                    &&& draws.to_multiset() == r@.to_multiset()
                },
    {
        let mut times: Vec<u64> = Vec::with_capacity(count);
        let mut i: usize = 0;
        while i < count
            invariant
                0 <= i <= count,
                times@.len() == i,
                forall|k: int| 0 <= k < i ==> in_band(k, #[trigger] times@[k] as int),
            decreases count - i,
        {
            let decile = i % 10;
            let t = if decile == 0 {
                780_000 + random_below(60_000)
            } else if decile <= 2 {
                900_000 + random_below(180_000)
            } else if decile <= 6 {
                1_140_000 + random_below(360_000)
            } else {
                1_560_000 + random_below(540_000)
            };
            times.push(t);
            i += 1;
        }
        let ghost draws = times@;
        sort_ascending(&mut times);
        proof {
            assert forall|i: int| 0 <= i < count implies FASTEST_FINISH <= #[trigger] times@[i]
                < SLOWEST_FINISH by {
                let t = times@[i];
                assert(times@.contains(t));
                vstd::seq_lib::to_multiset_contains(times@, t);
                vstd::seq_lib::to_multiset_contains(draws, t);
                assert(draws.contains(t));
                let k = choose|k: int| 0 <= k < draws.len() && draws[k] == t;
                assert(in_band(k, draws[k] as int));
            }
            assert(draws.len() == count);
            assert(draws.to_multiset() == times@.to_multiset());
        }
        times
    }

    /// Lays the roster out in rows of ten: row `i / 10` stands
    /// `row * formation_spread` behind the line, and column `i % 10` takes lane
    /// `0.8 + 0.15 * col` plus a random jitter below 0.05.
    pub fn setup_starting_positions(&mut self)
        requires
            old(self).wf(),
            old(self).finish_order@.len() == 0,
            old(self).status != RaceStatus::Finished,
        ensures
            final(self).wf(),
            final(self).config == old(self).config,
            final(self).status == old(self).status,
            final(self).elapsed_time == old(self).elapsed_time,
            final(self).countdown == old(self).countdown,
            final(self).finish_order@.len() == 0,
            final(self).runners@.len() == old(self).runners@.len(),
            forall|i: int|
                0 <= i < final(self).runners@.len() ==> {
                    let r = #[trigger] final(self).runners@[i];
                    let was = old(self).runners@[i];
                    let lane = 800_000 + (i % 10) * 150_000;
                    &&& r.distance == -((i / 10) * old(self).config.formation_spread)
                    &&& lane <= r.lane_position < lane + 50_000
                    &&& r.current_speed == 0
                    &&& r.target_speed == 0
                    &&& !r.flags.finished
                    &&& r.id == was.id
                    &&& r.name == was.name
                    &&& r.split_times == was.split_times
                    &&& r.stride_multiplier == was.stride_multiplier
                },
    {
        let spread = self.config.formation_spread;
        let n = self.runners.len();
        let ghost start = *self;
        let mut i: usize = 0;
        while i < n
            invariant
                0 <= i <= n,
                n == self.runners@.len(),
                n <= MAX_RUNNERS,
                start.runners@.len() == n,
                spread == self.config.formation_spread,
                spread <= MAX_SPREAD,
                self.config == start.config,
                self.status == start.status,
                self.elapsed_time == start.elapsed_time,
                self.countdown == start.countdown,
                self.finish_order == start.finish_order,
                roster_wf(self.runners@),
                forall|j: int| i <= j < n ==> #[trigger] self.runners@[j] == start.runners@[j],
                forall|j: int|
                    0 <= j < i ==> {
                        let r = #[trigger] self.runners@[j];
                        let was = start.runners@[j];
                        let lane = 800_000 + (j % 10) * 150_000;
                        &&& r.distance == -((j / 10) * spread)
                        &&& lane <= r.lane_position < lane + 50_000
                        &&& r.current_speed == 0
                        &&& r.target_speed == 0
                        &&& !r.flags.finished
                        &&& r.id == was.id
                        &&& r.name == was.name
                        &&& r.split_times == was.split_times
                        &&& r.stride_multiplier == was.stride_multiplier
                    },
            decreases n - i,
        {
            let row = (i / ROW_SIZE) as u64;
            let col = (i % ROW_SIZE) as u64;
            assert(row * spread <= 100_000 * MAX_SPREAD) by (nonlinear_arith)
                requires
                    row <= 100_000,
                    spread <= MAX_SPREAD,
            ;
            let start_distance = -((row * spread) as i64);
            let lane = 800_000 + col * 150_000 + random_below(50_000);
            self.runners[i].reset(start_distance, lane);
            i += 1;
        }
        proof {
            lemma_none_finished(self.runners@);
        }
    }

    /// Whether `snap` is this race's snapshot.
    pub open spec fn snapshot_matches(&self, snap: RaceSnapshot) -> bool {
        &&& snap.status == self.status
        &&& snap.elapsed_time == self.elapsed_time
        &&& snap.countdown == self.countdown
        &&& snap.finisher_count == self.finish_order@.len()
        &&& snap.runners@.len() == self.runners@.len()
        &&& forall|i: int|
            0 <= i < self.runners@.len() ==> #[trigger] snap.runners@[i] == RunnerSnapshot::of(
                self.runners@[i],
            )
    }

    /// A compact copy of the race for transfer.
    pub fn get_snapshot(&self) -> (r: RaceSnapshot)
        requires
            self.wf(),
        ensures
            self.snapshot_matches(r),
    {
        let mut runners: Vec<RunnerSnapshot> = Vec::with_capacity(self.runners.len());
        let mut i: usize = 0;
        while i < self.runners.len()
            invariant
                0 <= i <= self.runners@.len(),
                runners@.len() == i,
                forall|j: int| 0 <= j < i ==> #[trigger] runners@[j] == RunnerSnapshot::of(self.runners@[j]),
            decreases self.runners@.len() - i,
        {
            runners.push(RunnerSnapshot::from(&self.runners[i]));
            i += 1;
        }
        proof {
            lemma_num_finished_bounded(self.runners@);
        }
        RaceSnapshot {
            status: self.status,
            elapsed_time: self.elapsed_time,
            countdown: self.countdown,
            runners,
            finisher_count: self.finish_order.len() as u32,
        }
    }

    /// The runner farthest along; among equals, the last in roster order.
    pub fn get_leader(&self) -> (r: Option<&RunnerState>)
        ensures
            self.runners@.len() == 0 <==> r.is_none(),
            r.is_some() ==> exists|k: int|
                {
                    &&& 0 <= k < self.runners@.len()
                    &&& *r.unwrap() == self.runners@[k]
                    &&& forall|j: int|
                        0 <= j < self.runners@.len() ==> (#[trigger] self.runners@[j]).distance
                            <= self.runners@[k].distance
                    &&& forall|j: int|
                        k < j < self.runners@.len() ==> (#[trigger] self.runners@[j]).distance
                            < self.runners@[k].distance
                },
    {
        if self.runners.len() == 0 {
            return None;
        }
        let mut best: usize = 0;
        let mut i: usize = 1;
        while i < self.runners.len()
            invariant
                1 <= i <= self.runners@.len(),
                best < i,
                forall|j: int| 0 <= j < i ==> (#[trigger] self.runners@[j]).distance
                    <= self.runners@[best as int].distance,
                forall|j: int| best < j < i ==> (#[trigger] self.runners@[j]).distance
                    < self.runners@[best as int].distance,
            decreases self.runners@.len() - i,
        {
            if self.runners[i].distance >= self.runners[best].distance {
                best = i;
            }
            i += 1;
        }
        Some(&self.runners[best])
    }

    /// The first runner in roster order with id `id`.
    pub fn get_runner(&self, id: u32) -> (r: Option<&RunnerState>)
        ensures
            r.is_none() ==> forall|j: int|
                0 <= j < self.runners@.len() ==> (#[trigger] self.runners@[j]).id != id,
            r.is_some() ==> exists|k: int|
                {
                    &&& 0 <= k < self.runners@.len()
                    &&& *r.unwrap() == self.runners@[k]
                    &&& self.runners@[k].id == id
                    &&& forall|j: int| 0 <= j < k ==> (#[trigger] self.runners@[j]).id != id
                },
    {
        let mut i: usize = 0;
        while i < self.runners.len()
            invariant
                0 <= i <= self.runners@.len(),
                forall|j: int| 0 <= j < i ==> (#[trigger] self.runners@[j]).id != id,
            decreases self.runners@.len() - i,
        {
            if self.runners[i].id == id {
                return Some(&self.runners[i]);
            }
            i += 1;
        }
        None
    }

    /// Arms the countdown.
    pub fn start_countdown(&mut self)
        requires
            old(self).wf(),
        ensures
            final(self).wf(),
            final(self).status == RaceStatus::Countdown,
            final(self).countdown == COUNTDOWN,
            final(self).config == old(self).config,
            final(self).runners == old(self).runners,
            final(self).elapsed_time == old(self).elapsed_time,
            final(self).finish_order == old(self).finish_order,
    {
        self.status = RaceStatus::Countdown;
        self.countdown = COUNTDOWN;
    }
}

} // verus!
