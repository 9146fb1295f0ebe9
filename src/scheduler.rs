//! The tick loop: releases, deadline enforcement, state encoding, inference
//! and execution accounting.
use vstd::prelude::*;
use crate::policy::{infer, ints, PolicyWeights, IN, NUM_TASKS, SCALE};
use crate::task::{Task, TaskState};

verus! {

/// Why a taskset and network cannot be scheduled.
#[derive(Clone, Copy, PartialEq, Eq, Structural, Debug)]
pub enum ConfigError {
    /// Every deadline is zero, so time to deadline cannot be normalized.
    ZeroMaxDeadline,
    /// A task has no work per job, so its remaining ratio is undefined.
    ZeroWcet,
    /// A bias lies outside `BIAS_LIMIT`, so a neuron could overflow.
    BiasOutOfRange,
}

/// The greatest deadline among the first `n` tasks, zero for none.
pub open spec fn max_deadline_of(ts: Seq<Task>, n: nat) -> nat
    decreases n,
{
    if n == 0 {
        0
    } else {
        let m = max_deadline_of(ts, (n - 1) as nat);
        if ts[n - 1].deadline > m {
            ts[n - 1].deadline as nat
        } else {
            m
        }
    }
}

/// The deadline misses recorded by the first `n` tasks together.
pub open spec fn misses_sum(ts: Seq<Task>, n: nat) -> nat
    decreases n,
{
    if n == 0 {
        0
    } else {
        misses_sum(ts, (n - 1) as nat) + ts[n - 1].deadline_misses as nat
    }
}

/// The task after the release due at `tick`, if any.
pub open spec fn released_if_due(t: Task, tick: u32) -> Task {
    if tick >= t.next_release {
        t.released(tick)
    } else {
        t
    }
}

/// The task after the deadline check of `tick`.
pub open spec fn checked(t: Task, tick: u32) -> Task {
    if t.misses_at(tick) {
        t.abandoned()
    } else {
        t
    }
}

/// The tasks after the releases due at `tick`.
pub open spec fn releases(ts: Seq<Task>, tick: u32) -> Seq<Task> {
    ts.map_values(|t: Task| released_if_due(t, tick))
}

/// The tasks after the deadline checks of `tick`.
pub open spec fn deadline_checks(ts: Seq<Task>, tick: u32) -> Seq<Task> {
    ts.map_values(|t: Task| checked(t, tick))
}

/// How many of the first `n` tasks miss their deadline at `tick`.
pub open spec fn count_late(ts: Seq<Task>, tick: u32, n: nat) -> nat
    decreases n,
{
    if n == 0 {
        0
    } else {
        count_late(ts, tick, (n - 1) as nat) + if ts[n - 1].misses_at(tick) {
            1nat
        } else {
            0nat
        }
    }
}

/// `v` limited to `[lo, hi]`.
pub open spec fn clamp_spec(v: int, lo: int, hi: int) -> int {
    if v < lo {
        lo
    } else if v > hi {
        hi
    } else {
        v
    }
}

/// The normalized time left until the task's absolute deadline.
pub open spec fn time_to_deadline(t: Task, tick: u32, max_deadline: u32) -> int {
    if t.abs_deadline > tick {
        clamp_spec((t.abs_deadline - tick) * SCALE / (max_deadline as int), 0, SCALE as int)
    } else {
        0
    }
}

/// Feature `f` of a task: time to deadline, time since last scheduled
/// (held at its maximum), remaining work over WCET, and the ready flag; all
/// zero unless the task is Ready.
pub open spec fn feature(t: Task, f: int, tick: u32, max_deadline: u32) -> int {
    if t.state != TaskState::Ready {
        0
    } else if f == 0 {
        time_to_deadline(t, tick, max_deadline)
    } else if f == 2 {
        t.remaining * SCALE / (t.wcet as int)
    } else {
        SCALE as int
    }
}

/// The encoded state: four features per task, in task order.
pub open spec fn encode(ts: Seq<Task>, tick: u32, max_deadline: u32) -> Seq<int> {
    Seq::new(IN as nat, |k: int| feature(ts[k / 4], k % 4, tick, max_deadline))
}

/// The action names a task that is Ready, so that task runs this tick.
pub open spec fn runs(ts: Seq<Task>, action: int) -> bool {
    0 <= action < NUM_TASKS && ts[action].state == TaskState::Ready
}

/// The task as it stands after being run for one tick.
pub open spec fn run_one(t: Task) -> Task {
    Task { state: TaskState::Running, ..t }.executed()
}

/// A task runs this tick and a different task ran the tick before.
pub open spec fn switches(prev: Option<usize>, ts: Seq<Task>, action: int) -> bool {
    runs(ts, action) && prev is Some && prev->0 != action
}

proof fn lemma_count_late_bound(ts: Seq<Task>, tick: u32, n: nat)
    ensures
        count_late(ts, tick, n) <= n,
    decreases n,
{
    if n > 0 {
        lemma_count_late_bound(ts, tick, (n - 1) as nat);
    }
}

proof fn lemma_misses_sum_after_checks(ts: Seq<Task>, tick: u32, n: nat)
    requires
        n <= ts.len(),
        forall|k: int| 0 <= k < n ==> #[trigger] ts[k].deadline_misses < u32::MAX,
    ensures
        misses_sum(deadline_checks(ts, tick), n) == misses_sum(ts, n) + count_late(ts, tick, n),
    decreases n,
{
    if n > 0 {
        lemma_misses_sum_after_checks(ts, tick, (n - 1) as nat);
    }
}

proof fn lemma_misses_sum_update(ts: Seq<Task>, k: int, t: Task, n: nat)
    requires
        n <= ts.len(),
        0 <= k < ts.len(),
        t.deadline_misses == ts[k].deadline_misses,
    ensures
        misses_sum(ts.update(k, t), n) == misses_sum(ts, n),
    decreases n,
{
    if n > 0 {
        lemma_misses_sum_update(ts, k, t, (n - 1) as nat);
    }
}

proof fn lemma_misses_sum_same(a: Seq<Task>, b: Seq<Task>, n: nat)
    requires
        n <= a.len(),
        n <= b.len(),
        forall|k: int| 0 <= k < n ==> #[trigger] a[k].deadline_misses == b[k].deadline_misses,
    ensures
        misses_sum(a, n) == misses_sum(b, n),
    decreases n,
{
    if n > 0 {
        lemma_misses_sum_same(a, b, (n - 1) as nat);
    }
}

proof fn lemma_misses_sum_zero(ts: Seq<Task>, n: nat)
    requires
        n <= ts.len(),
        forall|k: int| 0 <= k < n ==> #[trigger] ts[k].deadline_misses == 0,
    ensures
        misses_sum(ts, n) == 0,
    decreases n,
{
    if n > 0 {
        lemma_misses_sum_zero(ts, (n - 1) as nat);
    }
}

/// `val` limited to `[min, max]`.
fn clamp(val: i64, min: i64, max: i64) -> (r: i64)
    requires
        min <= max,
    ensures
        r == clamp_spec(val as int, min as int, max as int),
{
    if val < min {
        min
    } else if val > max {
        max
    } else {
        val
    }
}

/// The tick-driven scheduler and its run statistics.
pub struct Scheduler {
    pub tasks: [Task; NUM_TASKS],
    pub tick: u32,
    pub current_task: Option<usize>,
    pub total_misses: u32,
    pub total_completions: u32,
    pub context_switches: u32,
    /// The greatest deadline of the taskset, fixed at construction; it
    /// normalizes the time-to-deadline feature.
    pub max_deadline: u32,
    /// The policy network, fixed at construction.
    pub weights: PolicyWeights,
}

impl Scheduler {
    /// Every task has work per job and a valid remaining count, the network
    /// cannot overflow, the tasks' misses add up to the total, and each
    /// counter has grown by at most its per-tick bound since tick 0.
    pub open spec fn wf(self) -> bool {
        &&& self.max_deadline > 0
        &&& forall|i: int|
            0 <= i < NUM_TASKS ==> #[trigger] self.tasks@[i].wcet > 0 && self.tasks@[i].wf()
                && self.tasks@[i].deadline_misses <= self.tick
        &&& self.weights.wf()
        &&& misses_sum(self.tasks@, NUM_TASKS as nat) == self.total_misses
        &&& self.total_misses <= NUM_TASKS * self.tick
        &&& self.total_completions <= self.tick
        &&& self.context_switches <= self.tick
        &&& self.current_task is Some ==> self.current_task->0 < NUM_TASKS
    }

    /// `n` more ticks keep every counter and every release time in range.
    pub open spec fn has_room(self, n: nat) -> bool {
        &&& NUM_TASKS * (self.tick + n) <= u32::MAX
        &&& forall|i: int|
            0 <= i < NUM_TASKS ==> self.tick + n + #[trigger] self.tasks@[i].period <= u32::MAX
                && self.tick + n + self.tasks@[i].deadline <= u32::MAX
    }

    /// `next` is `self` one tick later, where `ts` are the tasks as they
    /// stand before the action, `misses` the misses found this tick, and
    /// `action` the action taken.
    pub open spec fn tick_result(self, next: Scheduler, ts: Seq<Task>, misses: nat, action: int) -> bool {
        &&& next.tasks@ == if runs(ts, action) {
            ts.update(action, run_one(ts[action]))
        } else {
            ts
        }
        &&& next.tick == self.tick + 1
        &&& next.total_misses == self.total_misses + misses
        &&& next.total_completions == self.total_completions + if runs(ts, action)
            && ts[action].remaining == 1 {
            1int
        } else {
            0int
        }
        &&& next.context_switches == self.context_switches + if switches(
            self.current_task,
            ts,
            action,
        ) {
            1int
        } else {
            0int
        }
        &&& next.current_task == if runs(ts, action) {
            Some(action as usize)
        } else {
            None
        }
        &&& next.max_deadline == self.max_deadline
        &&& next.weights == self.weights
    }

    /// `next` is `self` after one full tick: releases, deadline checks,
    /// the network's choice on the encoded state, and that action.
    pub open spec fn next_is(self, next: Scheduler) -> bool {
        let rel = releases(self.tasks@, self.tick);
        let ts = deadline_checks(rel, self.tick);
        self.tick_result(
            next,
            ts,
            count_late(rel, self.tick, NUM_TASKS as nat),
            self.weights.action(encode(ts, self.tick, self.max_deadline)) as int,
        )
    }

    /// `last` is `self` after `n` full ticks.
    pub open spec fn steps_to(self, last: Scheduler, n: nat) -> bool
        decreases n,
    {
        if n == 0 {
            self == last
        } else {
            exists|mid: Scheduler| self.steps_to(mid, (n - 1) as nat) && #[trigger] mid.next_is(last)
        }
    }

    /// Ready to apply an action and close the tick: the state between the
    /// deadline checks and the action, where this tick's misses are counted.
    pub open spec fn can_apply(self) -> bool {
        &&& self.max_deadline > 0
        &&& forall|i: int|
            0 <= i < NUM_TASKS ==> #[trigger] self.tasks@[i].wcet > 0 && self.tasks@[i].wf()
                && self.tasks@[i].deadline_misses <= self.tick + 1
        &&& self.weights.wf()
        &&& misses_sum(self.tasks@, NUM_TASKS as nat) == self.total_misses
        &&& self.total_misses <= NUM_TASKS * (self.tick + 1)
        &&& self.total_completions <= self.tick
        &&& self.context_switches <= self.tick
        &&& self.current_task is Some ==> self.current_task->0 < NUM_TASKS
        &&& NUM_TASKS * (self.tick + 1) <= u32::MAX
    }

    /// Everything but the tasks is the same in `self` and `other`.
    pub open spec fn same_but_tasks(self, other: Scheduler) -> bool {
        &&& self.tick == other.tick
        &&& self.current_task == other.current_task
        &&& self.total_misses == other.total_misses
        &&& self.total_completions == other.total_completions
        &&& self.context_switches == other.context_switches
        &&& self.max_deadline == other.max_deadline
        &&& self.weights == other.weights
    }

    /// Releases a new job of every task whose period boundary has come.
    fn do_releases(&mut self)
        requires
            old(self).wf(),
            old(self).has_room(1),
        ensures
            final(self).tasks@ == releases(old(self).tasks@, old(self).tick),
            final(self).same_but_tasks(*old(self)),
    {
        let ghost pre = *self;
        let mut i: usize = 0;
        while i < NUM_TASKS
            invariant
                i <= NUM_TASKS,
                pre.wf(),
                pre.has_room(1),
                self.same_but_tasks(pre),
                forall|k: int| 0 <= k < i ==> #[trigger] self.tasks@[k] == released_if_due(pre.tasks@[k], pre.tick),
                forall|k: int| i <= k < NUM_TASKS ==> #[trigger] self.tasks@[k] == pre.tasks@[k],
            decreases NUM_TASKS - i,
        {
            let mut t = self.tasks[i];
            if self.tick >= t.next_release {
                assert(pre.tasks@[i as int] == t);
                t.release(self.tick);
            }
            self.tasks[i] = t;
            i = i + 1;
        }
        assert(self.tasks@ =~= releases(pre.tasks@, pre.tick));
    }

    /// Abandons every job found late at the current tick, counting the misses.
    fn check_deadlines(&mut self)
        requires
            forall|i: int| 0 <= i < NUM_TASKS ==> #[trigger] old(self).tasks@[i].deadline_misses <= old(self).tick,
            misses_sum(old(self).tasks@, NUM_TASKS as nat) == old(self).total_misses,
            old(self).total_misses <= NUM_TASKS * old(self).tick,
            NUM_TASKS * (old(self).tick + 1) <= u32::MAX,
        ensures
            final(self).tasks@ == deadline_checks(old(self).tasks@, old(self).tick),
            final(self).total_misses == old(self).total_misses + count_late(
                old(self).tasks@,
                old(self).tick,
                NUM_TASKS as nat,
            ),
            final(self).tick == old(self).tick,
            final(self).current_task == old(self).current_task,
            final(self).total_completions == old(self).total_completions,
            final(self).context_switches == old(self).context_switches,
            final(self).max_deadline == old(self).max_deadline,
            final(self).weights == old(self).weights,
    {
        let ghost pre = *self;
        let mut i: usize = 0;
        while i < NUM_TASKS
            invariant
                i <= NUM_TASKS,
                forall|k: int| 0 <= k < NUM_TASKS ==> #[trigger] pre.tasks@[k].deadline_misses <= pre.tick,
                pre.total_misses <= NUM_TASKS * pre.tick,
                NUM_TASKS * (pre.tick + 1) <= u32::MAX,
                self.tick == pre.tick,
                self.current_task == pre.current_task,
                self.total_completions == pre.total_completions,
                self.context_switches == pre.context_switches,
                self.max_deadline == pre.max_deadline,
                self.weights == pre.weights,
                self.total_misses == pre.total_misses + count_late(pre.tasks@, pre.tick, i as nat),
                forall|k: int| 0 <= k < i ==> #[trigger] self.tasks@[k] == checked(pre.tasks@[k], pre.tick),
                forall|k: int| i <= k < NUM_TASKS ==> #[trigger] self.tasks@[k] == pre.tasks@[k],
            decreases NUM_TASKS - i,
        {
            let mut t = self.tasks[i];
            assert(pre.tasks@[i as int] == t);
            proof {
                lemma_count_late_bound(pre.tasks@, pre.tick, i as nat);
            }
            if t.check_deadline(self.tick) {
                self.total_misses += 1;
            }
            self.tasks[i] = t;
            i = i + 1;
        }
        assert(self.tasks@ =~= deadline_checks(pre.tasks@, pre.tick));
    }

    /// Applies `action` and closes the tick: a Ready task that the action
    /// names runs for one tick, a switch between two different running tasks
    /// is counted, and the tick advances. Any other action leaves the tick
    /// idle.
    pub fn apply_action(&mut self, action: usize)
        requires
            old(self).can_apply(),
        ensures
            old(self).tick_result(*final(self), old(self).tasks@, 0, action as int),
            final(self).wf(),
            forall|i: int| 0 <= i < NUM_TASKS ==> #[trigger] final(self).tasks@[i].same_params(old(self).tasks@[i]),
    {
        let ghost pre = *self;
        if action < NUM_TASKS && self.tasks[action].state == TaskState::Ready {
            if let Some(prev) = self.current_task {
                if prev != action {
                    self.context_switches += 1;
                }
            }
            let mut t = self.tasks[action];
            t.state = TaskState::Running;
            if t.tick_execute() {
                self.total_completions += 1;
            }
            self.tasks[action] = t;
            self.current_task = Some(action);
            proof {
                lemma_misses_sum_update(pre.tasks@, action as int, t, NUM_TASKS as nat);
            }
        } else {
            self.current_task = None;
        }
        self.tick += 1;
    }

    /// Runs one tick: releases, deadline checks, encoding, inference, then
    /// the chosen action.
    pub fn tick_once(&mut self)
        requires
            old(self).wf(),
            old(self).has_room(1),
        ensures
            old(self).next_is(*final(self)),
            final(self).wf(),
            forall|i: int| 0 <= i < NUM_TASKS ==> #[trigger] final(self).tasks@[i].same_params(old(self).tasks@[i]),
    {
        let ghost pre = *self;
        self.do_releases();
        let ghost rel = self.tasks@;
        proof {
            lemma_misses_sum_same(rel, pre.tasks@, NUM_TASKS as nat);
        }
        self.check_deadlines();
        proof {
            lemma_misses_sum_after_checks(rel, pre.tick, NUM_TASKS as nat);
            lemma_count_late_bound(rel, pre.tick, NUM_TASKS as nat);
        }
        let state = self.build_state();
        let action = infer(&state, &self.weights);
        self.apply_action(action);
    }

    /// Runs `total_ticks` ticks in a row.
    pub fn run(&mut self, total_ticks: u32)
        requires
            old(self).wf(),
            old(self).has_room(total_ticks as nat),
        ensures
            old(self).steps_to(*final(self), total_ticks as nat),
            final(self).wf(),
            final(self).tick == old(self).tick + total_ticks,
            forall|i: int| 0 <= i < NUM_TASKS ==> #[trigger] final(self).tasks@[i].same_params(old(self).tasks@[i]),
    {
        let ghost pre = *self;
        let mut k: u32 = 0;
        while k < total_ticks
            invariant
                k <= total_ticks,
                self.wf(),
                self.tick == pre.tick + k,
                pre.steps_to(*self, k as nat),
                pre.has_room(total_ticks as nat),
                forall|i: int| 0 <= i < NUM_TASKS ==> #[trigger] self.tasks@[i].same_params(pre.tasks@[i]),
            decreases total_ticks - k,
        {
            assert(self.has_room(1)) by {
                assert forall|i: int| 0 <= i < NUM_TASKS implies self.tick + 1 + #[trigger] self.tasks@[i].period <= u32::MAX
                    && self.tick + 1 + self.tasks@[i].deadline <= u32::MAX by {
                    assert(self.tasks@[i].same_params(pre.tasks@[i]));
                }
            }
            let ghost before = *self;
            self.tick_once();
            assert forall|i: int| 0 <= i < NUM_TASKS implies #[trigger] self.tasks@[i].same_params(pre.tasks@[i]) by {
                assert(self.tasks@[i].same_params(before.tasks@[i]));
                assert(before.tasks@[i].same_params(pre.tasks@[i]));
            }
            assert(pre.steps_to(*self, (k + 1) as nat)) by {
                assert(pre.steps_to(before, k as nat) && before.next_is(*self));
            }
            k = k + 1;
        }
    }

    /// Encodes the tasks as they stand at the current tick.
    ///
    /// The time-since-scheduled feature is held at `SCALE` for every Ready
    /// task: the network was trained against exactly that value.
    pub fn build_state(&self) -> (state: [i32; IN])
        requires
            self.max_deadline > 0,
            forall|i: int| 0 <= i < NUM_TASKS ==> #[trigger] self.tasks@[i].wcet > 0 && self.tasks@[i].wf(),
        ensures
            ints(state@) == encode(self.tasks@, self.tick, self.max_deadline),
    {
        let mut state = [0i32; IN];
        let mut i: usize = 0;
        while i < NUM_TASKS
            invariant
                i <= NUM_TASKS,
                self.max_deadline > 0,
                forall|j: int| 0 <= j < NUM_TASKS ==> #[trigger] self.tasks@[j].wcet > 0 && self.tasks@[j].wf(),
                forall|k: int|
                    0 <= k < 4 * i ==> #[trigger] state@[k] as int == feature(
                        self.tasks@[k / 4],
                        k % 4,
                        self.tick,
                        self.max_deadline,
                    ),
                forall|k: int| 4 * i <= k < IN ==> #[trigger] state@[k] == 0,
            decreases NUM_TASKS - i,
        {
            let t = self.tasks[i];
            assert(t.wcet > 0 && t.wf());
            let base = i * 4;
            if t.state == TaskState::Ready {
                let ttd: i64 = if t.abs_deadline > self.tick {
                    let left = (t.abs_deadline - self.tick) as u64;
                    assert(left * 1024 <= 0x4000_0000_0000) by (nonlinear_arith)
                        requires
                            left <= 0xffff_ffff,
                    ;
                    clamp((left * (SCALE as u64) / (self.max_deadline as u64)) as i64, 0, SCALE as i64)
                } else {
                    0
                };
                state[base] = ttd as i32;
                state[base + 1] = SCALE;
                let rem = t.remaining as u64;
                let wcet = t.wcet as u64;
                assert((rem * 1024) as int / (wcet as int) <= 1024) by (nonlinear_arith)
                    requires
                        rem <= wcet,
                        wcet > 0,
                ;
                assert(rem * 1024 <= 0x4000_0000_0000) by (nonlinear_arith)
                    requires
                        rem <= 0xffff_ffff,
                ;
                state[base + 2] = (rem * (SCALE as u64) / wcet) as i32;
                state[base + 3] = SCALE;
            }
            assert(base / 4 == i && base % 4 == 0);
            assert((base + 1) / 4 == i && (base + 1) % 4 == 1);
            assert((base + 2) / 4 == i && (base + 2) % 4 == 2);
            assert((base + 3) / 4 == i && (base + 3) % 4 == 3);
            i = i + 1;
        }
        assert(ints(state@) =~= encode(self.tasks@, self.tick, self.max_deadline));
        state
    }

    /// Builds a scheduler over `tasks`, each with its parameters kept and no
    /// job released yet, driven by the network `weights`.
    ///
    /// Fails when every deadline is zero, when a task has a zero WCET, or when
    /// a bias is out of range, checked in that order.
    pub fn new(tasks: [Task; NUM_TASKS], weights: PolicyWeights) -> (r: Result<Scheduler, ConfigError>)
        ensures
            r == Err::<Scheduler, ConfigError>(ConfigError::ZeroMaxDeadline) <==> max_deadline_of(
                tasks@,
                NUM_TASKS as nat,
            ) == 0,
            r == Err::<Scheduler, ConfigError>(ConfigError::ZeroWcet) <==> max_deadline_of(
                tasks@,
                NUM_TASKS as nat,
            ) > 0 && exists|i: int| 0 <= i < NUM_TASKS && #[trigger] tasks@[i].wcet == 0,
            r == Err::<Scheduler, ConfigError>(ConfigError::BiasOutOfRange) <==> max_deadline_of(
                tasks@,
                NUM_TASKS as nat,
            ) > 0 && (forall|i: int| 0 <= i < NUM_TASKS ==> #[trigger] tasks@[i].wcet > 0)
                && !weights.wf(),
            r is Ok ==> ({
                let s = r->Ok_0;
                &&& s.wf()
                &&& forall|i: int| 0 <= i < NUM_TASKS ==> #[trigger] s.tasks@[i] == tasks@[i].initial()
                &&& s.tick == 0
                &&& s.current_task is None
                &&& s.total_misses == 0
                &&& s.total_completions == 0
                &&& s.context_switches == 0
                &&& s.max_deadline == max_deadline_of(tasks@, NUM_TASKS as nat)
                &&& s.weights == weights
            }),
    {
        let mut max_deadline: u32 = 0;
        let mut i: usize = 0;
        while i < NUM_TASKS
            invariant
                i <= NUM_TASKS,
                max_deadline == max_deadline_of(tasks@, i as nat),
            decreases NUM_TASKS - i,
        {
            if tasks[i].deadline > max_deadline {
                max_deadline = tasks[i].deadline;
            }
            i = i + 1;
        }
        if max_deadline == 0 {
            return Err(ConfigError::ZeroMaxDeadline);
        }
        let mut fresh = tasks;
        let mut i: usize = 0;
        while i < NUM_TASKS
            invariant
                i <= NUM_TASKS,
                fresh@.len() == NUM_TASKS,
                max_deadline > 0,
                max_deadline == max_deadline_of(tasks@, NUM_TASKS as nat),
                forall|k: int| 0 <= k < i ==> #[trigger] tasks@[k].wcet > 0,
                forall|k: int| 0 <= k < i ==> #[trigger] fresh@[k] == tasks@[k].initial(),
            decreases NUM_TASKS - i,
        {
            let t = tasks[i];
            if t.wcet == 0 {
                assert(tasks@[i as int].wcet == 0);
                return Err(ConfigError::ZeroWcet);
            }
            fresh[i] = Task::new(t.id, t.period, t.deadline, t.wcet);
            i = i + 1;
        }
        if !weights.is_well_formed() {
            return Err(ConfigError::BiasOutOfRange);
        }
        proof {
            lemma_misses_sum_zero(fresh@, NUM_TASKS as nat);
        }
        Ok(
            Scheduler {
                tasks: fresh,
                tick: 0,
                current_task: None,
                total_misses: 0,
                total_completions: 0,
                context_switches: 0,
                max_deadline,
                weights,
            },
        )
    }
}

/// The deadline misses recorded by the tasks always add up to the run's
/// total of misses.
pub proof fn lemma_misses_accounted(s: Scheduler)
    requires
        s.wf(),
    ensures
        misses_sum(s.tasks@, NUM_TASKS as nat) == s.total_misses,
{
}

/// A tick counts a context switch exactly when a task ran on both this tick
/// and the one before, and the two tasks differ; a tick to or from idle
/// counts none.
pub proof fn lemma_switch_only_between_tasks(
    s: Scheduler,
    next: Scheduler,
    ts: Seq<Task>,
    misses: nat,
    action: int,
)
    requires
        s.tick_result(next, ts, misses, action),
    ensures
        next.context_switches == s.context_switches + if s.current_task is Some
            && next.current_task is Some && s.current_task->0 != next.current_task->0 {
            1int
        } else {
            0int
        },
{
}

} // verus!
