use rl_rtos::policy::{PolicyWeights, NUM_TASKS, SCALE};
use rl_rtos::scheduler::{ConfigError, Scheduler};
use rl_rtos::task::{Task, TaskState};

fn taskset(params: [(u32, u32, u32); NUM_TASKS]) -> [Task; NUM_TASKS] {
    let mut ts = [Task::new(0, 0, 0, 0); NUM_TASKS];
    for (i, (p, d, c)) in params.iter().enumerate() {
        ts[i] = Task::new(i, *p, *d, *c);
    }
    ts
}

fn standard_taskset() -> [Task; NUM_TASKS] {
    taskset([(10, 10, 2), (15, 15, 3), (20, 20, 4), (30, 30, 5), (50, 50, 8), (100, 100, 10)])
}

fn misses_sum(s: &Scheduler) -> u32 {
    s.tasks.iter().map(|t| t.deadline_misses).sum()
}

#[test]
fn new_starts_with_fresh_tasks_and_zero_stats() {
    let mut tasks = standard_taskset();
    tasks[2].deadline_misses = 9;
    tasks[2].state = TaskState::Ready;
    tasks[2].remaining = 4;
    let s = Scheduler::new(tasks, PolicyWeights::zeroed()).unwrap();
    assert_eq!(s.tick, 0);
    assert_eq!(s.current_task, None);
    assert_eq!(s.total_misses, 0);
    assert_eq!(s.total_completions, 0);
    assert_eq!(s.context_switches, 0);
    assert_eq!(s.max_deadline, 100);
    assert_eq!(s.tasks[2].deadline_misses, 0);
    assert_eq!(s.tasks[2].state, TaskState::Completed);
    assert_eq!(s.tasks[2].remaining, 0);
    assert_eq!(s.tasks[2].period, 20);
    assert_eq!(s.tasks[2].wcet, 4);
}

#[test]
fn new_rejects_all_zero_deadlines() {
    let tasks = taskset([(10, 0, 1); NUM_TASKS]);
    assert_eq!(Scheduler::new(tasks, PolicyWeights::zeroed()).err(), Some(ConfigError::ZeroMaxDeadline));
}

#[test]
fn new_rejects_zero_wcet() {
    let mut tasks = standard_taskset();
    tasks[4] = Task::new(4, 50, 50, 0);
    assert_eq!(Scheduler::new(tasks, PolicyWeights::zeroed()).err(), Some(ConfigError::ZeroWcet));
}

#[test]
fn new_rejects_out_of_range_bias() {
    let mut w = PolicyWeights::zeroed();
    w.b1[3] = i32::MIN;
    assert_eq!(Scheduler::new(standard_taskset(), w).err(), Some(ConfigError::BiasOutOfRange));
}

#[test]
fn zero_deadline_error_comes_before_zero_wcet() {
    let tasks = taskset([(10, 0, 0); NUM_TASKS]);
    assert_eq!(Scheduler::new(tasks, PolicyWeights::zeroed()).err(), Some(ConfigError::ZeroMaxDeadline));
}

#[test]
fn state_encoding_formulas() {
    let mut s = Scheduler::new(standard_taskset(), PolicyWeights::zeroed()).unwrap();
    for t in s.tasks.iter_mut() {
        t.release(0);
    }
    s.tasks[1].remaining = 1;
    s.tasks[3].state = TaskState::Running;
    s.tasks[4].abs_deadline = 2;
    s.tick = 4;
    let st = s.build_state();
    // Task 0: deadline 10 ticks away less 4, over max deadline 100.
    assert_eq!(&st[0..4], &[6 * 1024 / 100, SCALE, SCALE, SCALE]);
    assert_eq!(&st[4..8], &[11 * 1024 / 100, SCALE, 1024 / 3, SCALE]);
    assert_eq!(&st[8..12], &[16 * 1024 / 100, SCALE, SCALE, SCALE]);
    assert_eq!(&st[12..16], &[0, 0, 0, 0]);
    assert_eq!(&st[16..20], &[0, SCALE, SCALE, SCALE]);
    assert_eq!(&st[20..24], &[96 * 1024 / 100, SCALE, SCALE, SCALE]);
}

#[test]
fn time_to_deadline_is_clamped_to_scale() {
    let tasks = taskset([(10, 10, 2), (500, 400, 3), (20, 20, 4), (30, 30, 5), (50, 50, 8), (100, 100, 10)]);
    let mut s = Scheduler::new(tasks, PolicyWeights::zeroed()).unwrap();
    s.tasks[1].release(0);
    s.tasks[1].abs_deadline = 800;
    let st = s.build_state();
    assert_eq!(st[4], SCALE);
    assert_eq!(st[0], 0);
}

#[test]
fn zero_weight_hyperperiod_golden() {
    let mut s = Scheduler::new(standard_taskset(), PolicyWeights::zeroed()).unwrap();
    s.run(300);
    // Task 0 runs one tick per job and then stays Running, so it is never
    // picked again before its next release overwrites the job. Deadlines equal
    // periods, so every other job is overwritten by its next release in the
    // same tick that would have found it late.
    assert_eq!(s.tick, 300);
    assert_eq!(s.total_completions, 0);
    assert_eq!(s.total_misses, 0);
    assert_eq!(s.context_switches, 0);
    for t in s.tasks.iter() {
        assert_eq!(t.deadline_misses, 0);
    }
    assert_eq!(misses_sum(&s), s.total_misses);
}

#[test]
fn misses_add_up_when_deadlines_are_short() {
    let tasks = taskset([(10, 5, 2); NUM_TASKS]);
    let mut s = Scheduler::new(tasks, PolicyWeights::zeroed()).unwrap();
    s.run(20);
    assert_eq!(s.tick, 20);
    assert_eq!(s.tasks[0].deadline_misses, 0);
    for t in s.tasks[1..].iter() {
        assert_eq!(t.deadline_misses, 2);
    }
    assert_eq!(s.total_misses, 10);
    assert_eq!(misses_sum(&s), s.total_misses);
    assert_eq!(s.total_completions, 0);
}

#[test]
fn single_tick_jobs_complete() {
    let tasks = taskset([(10, 10, 1); NUM_TASKS]);
    let mut s = Scheduler::new(tasks, PolicyWeights::zeroed()).unwrap();
    s.run(30);
    assert_eq!(s.tick, 30);
    assert_eq!(s.total_completions, 3);
    assert_eq!(s.total_misses, 0);
    assert_eq!(s.context_switches, 0);
}

#[test]
fn tick_once_runs_the_chosen_task() {
    let mut s = Scheduler::new(standard_taskset(), PolicyWeights::zeroed()).unwrap();
    s.tick_once();
    assert_eq!(s.tick, 1);
    assert_eq!(s.current_task, Some(0));
    assert_eq!(s.tasks[0].state, TaskState::Running);
    assert_eq!(s.tasks[0].remaining, 1);
    assert_eq!(s.tasks[1].state, TaskState::Ready);
    assert_eq!(s.tasks[1].abs_deadline, 15);
    s.tick_once();
    assert_eq!(s.current_task, None);
    assert_eq!(s.tasks[0].remaining, 1);
}

#[test]
fn tick_once_prefers_the_network_choice() {
    let mut w = PolicyWeights::zeroed();
    w.b3[3] = 10;
    let mut s = Scheduler::new(standard_taskset(), w).unwrap();
    s.tick_once();
    assert_eq!(s.current_task, Some(3));
    assert_eq!(s.tasks[3].remaining, 4);
    assert_eq!(s.tasks[0].remaining, 2);
}

#[test]
fn context_switches_count_only_task_to_task_changes() {
    let tasks = taskset([(10, 10, 5); NUM_TASKS]);
    let mut s = Scheduler::new(tasks, PolicyWeights::zeroed()).unwrap();
    for t in s.tasks.iter_mut() {
        t.release(0);
    }
    s.apply_action(0); // idle -> task 0
    assert_eq!((s.current_task, s.context_switches), (Some(0), 0));
    s.apply_action(1); // task 0 -> task 1
    assert_eq!((s.current_task, s.context_switches), (Some(1), 1));
    s.apply_action(6); // task 1 -> idle
    assert_eq!((s.current_task, s.context_switches), (None, 1));
    s.apply_action(2); // idle -> task 2
    assert_eq!((s.current_task, s.context_switches), (Some(2), 1));
    s.apply_action(3); // task 2 -> task 3
    assert_eq!((s.current_task, s.context_switches), (Some(3), 2));
    s.apply_action(0); // task 0 is Running, not Ready: an idle tick
    assert_eq!((s.current_task, s.context_switches), (None, 2));
    s.apply_action(9); // out of range: an idle tick
    assert_eq!((s.current_task, s.context_switches), (None, 2));
    assert_eq!(s.tick, 7);
}

#[test]
fn same_task_twice_is_no_switch() {
    let tasks = taskset([(10, 10, 1); NUM_TASKS]);
    let mut s = Scheduler::new(tasks, PolicyWeights::zeroed()).unwrap();
    s.tasks[2].release(0);
    s.apply_action(2);
    assert_eq!(s.total_completions, 1);
    s.tasks[2].release(1);
    s.apply_action(2);
    assert_eq!((s.current_task, s.context_switches), (Some(2), 0));
    assert_eq!(s.total_completions, 2);
    s.tasks[4].release(2);
    s.apply_action(4);
    assert_eq!((s.current_task, s.context_switches), (Some(4), 1));
}
