//! The lifecycle of one periodic task's jobs.
use vstd::prelude::*;

verus! {

/// Where a task's current job stands.
///
/// `Blocked` is kept for resource waits; the scheduler never enters it.
#[derive(Clone, Copy, PartialEq, Eq, Structural, Debug)]
pub enum TaskState {
    Ready,
    Running,
    Blocked,
    Completed,
}

/// A periodic real-time task: its fixed timing parameters and the live state
/// of its current job.
#[derive(Clone, Copy, Debug)]
pub struct Task {
    pub id: usize,
    pub period: u32,
    pub deadline: u32,
    pub wcet: u32,
    pub remaining: u32,
    pub next_release: u32,
    pub abs_deadline: u32,
    pub state: TaskState,
    pub deadline_misses: u32,
}

impl Task {
    /// The work left never exceeds the worst-case execution time.
    pub open spec fn wf(self) -> bool {
        self.remaining <= self.wcet
    }

    /// The task as it stands after a new job is released at `tick`.
    pub open spec fn released(self, tick: u32) -> Task {
        Task {
            remaining: self.wcet,
            abs_deadline: (tick + self.deadline) as u32,
            next_release: (tick + self.period) as u32,
            state: TaskState::Ready,
            ..self
        }
    }

    /// A deadline check at `tick` finds this job late.
    pub open spec fn misses_at(self, tick: u32) -> bool {
        self.state == TaskState::Ready && tick >= self.abs_deadline
    }

    /// The task after its late job is abandoned and counted as a miss.
    pub open spec fn abandoned(self) -> Task {
        Task {
            deadline_misses: (self.deadline_misses + 1) as u32,
            state: TaskState::Completed,
            remaining: 0,
            ..self
        }
    }

    /// The task after one tick of execution.
    pub open spec fn executed(self) -> Task {
        if self.remaining == 0 {
            self
        } else if self.remaining == 1 {
            Task { remaining: 0, state: TaskState::Completed, ..self }
        } else {
            Task { remaining: (self.remaining - 1) as u32, ..self }
        }
    }

    /// The task with its static parameters kept and no job released yet.
    pub open spec fn initial(self) -> Task {
        Task {
            remaining: 0,
            next_release: 0,
            abs_deadline: 0,
            state: TaskState::Completed,
            deadline_misses: 0,
            ..self
        }
    }

    /// The static parameters of `self` and `other` agree.
    pub open spec fn same_params(self, other: Task) -> bool {
        &&& self.id == other.id
        &&& self.period == other.period
        &&& self.deadline == other.deadline
        &&& self.wcet == other.wcet
    }

    /// A task with no job released yet.
    pub fn new(id: usize, period: u32, deadline: u32, wcet: u32) -> (r: Self)
        ensures
            r.id == id,
            r.period == period,
            r.deadline == deadline,
            r.wcet == wcet,
            r.remaining == 0,
            r.next_release == 0,
            r.abs_deadline == 0,
            r.state == TaskState::Completed,
            r.deadline_misses == 0,
    {
        Task {
            id,
            period,
            deadline,
            wcet,
            remaining: 0,
            next_release: 0,
            abs_deadline: 0,
            state: TaskState::Completed,
            deadline_misses: 0,
        }
    }

    /// Releases a new job at `tick`, replacing whatever job was live.
    pub fn release(&mut self, tick: u32)
        requires
            tick + old(self).deadline <= u32::MAX,
            tick + old(self).period <= u32::MAX,
        ensures
            final(self).remaining == old(self).wcet,
            final(self).abs_deadline == tick + old(self).deadline,
            final(self).next_release == tick + old(self).period,
            final(self).state == TaskState::Ready,
            *final(self) == old(self).released(tick),
    {
        self.remaining = self.wcet;
        self.abs_deadline = tick + self.deadline;
        self.next_release = tick + self.period;
        self.state = TaskState::Ready;
    }

    /// Runs the current job for one tick; true when that finishes it.
    pub fn tick_execute(&mut self) -> (done: bool)
        ensures
            done == (old(self).remaining == 1),
            old(self).remaining > 0 ==> final(self).remaining == old(self).remaining - 1,
            old(self).remaining == 0 ==> final(self).remaining == 0,
            done ==> final(self).state == TaskState::Completed,
            *final(self) == old(self).executed(),
    {
        if self.remaining > 0 {
            self.remaining -= 1;
            if self.remaining == 0 {
                self.state = TaskState::Completed;
                return true;
            }
        }
        false
    }

    /// Abandons the current job when it is still waiting at or after its
    /// absolute deadline; true on such a miss.
    pub fn check_deadline(&mut self, tick: u32) -> (missed: bool)
        requires
            old(self).misses_at(tick) ==> old(self).deadline_misses < u32::MAX,
        ensures
            missed == old(self).misses_at(tick),
            missed ==> final(self).state == TaskState::Completed && final(self).remaining == 0
                && final(self).deadline_misses == old(self).deadline_misses + 1,
            missed ==> *final(self) == old(self).abandoned(),
            !missed ==> *final(self) == *old(self),
    {
        if self.state == TaskState::Ready && tick >= self.abs_deadline {
            self.deadline_misses += 1;
            self.state = TaskState::Completed;
            self.remaining = 0;
            return true;
        }
        false
    }
}

/// Once a tick of execution finishes a job, further ticks of execution
/// report nothing more until the next release: completion is signalled once.
pub proof fn lemma_completion_signalled_once(t: Task)
    requires
        t.remaining == 1,
    ensures
        t.executed().remaining == 0,
        t.executed().state == TaskState::Completed,
        t.executed().executed() == t.executed(),
{
}

/// A deadline check that finds a miss leaves the task Completed with no work
/// left, so a repeated check at any tick before the next release finds none.
pub proof fn lemma_deadline_check_idempotent(t: Task, tick: u32, later: u32)
    requires
        t.misses_at(tick),
    ensures
        t.abandoned().state == TaskState::Completed,
        t.abandoned().remaining == 0,
        !t.abandoned().misses_at(later),
{
}

} // verus!
