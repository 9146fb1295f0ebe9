use rl_rtos::task::{Task, TaskState};

#[test]
fn new_task_starts_completed_with_zeroed_timing() {
    let t = Task::new(3, 20, 15, 4);
    assert_eq!(t.id, 3);
    assert_eq!(t.period, 20);
    assert_eq!(t.deadline, 15);
    assert_eq!(t.wcet, 4);
    assert_eq!(t.remaining, 0);
    assert_eq!(t.next_release, 0);
    assert_eq!(t.abs_deadline, 0);
    assert_eq!(t.state, TaskState::Completed);
    assert_eq!(t.deadline_misses, 0);
}

#[test]
fn release_sets_job_fields() {
    let mut t = Task::new(0, 15, 12, 3);
    t.release(30);
    assert_eq!(t.remaining, 3);
    assert_eq!(t.abs_deadline, 42);
    assert_eq!(t.next_release, 45);
    assert_eq!(t.state, TaskState::Ready);
}

#[test]
fn release_overwrites_unfinished_job() {
    let mut t = Task::new(0, 10, 10, 4);
    t.release(0);
    t.state = TaskState::Running;
    assert!(!t.tick_execute());
    t.release(10);
    assert_eq!(t.remaining, 4);
    assert_eq!(t.abs_deadline, 20);
    assert_eq!(t.next_release, 20);
    assert_eq!(t.state, TaskState::Ready);
    assert_eq!(t.deadline_misses, 0);
}

#[test]
fn tick_execute_signals_completion_once() {
    let mut t = Task::new(0, 10, 10, 3);
    t.release(0);
    t.state = TaskState::Running;
    assert!(!t.tick_execute());
    assert_eq!(t.remaining, 2);
    assert_eq!(t.state, TaskState::Running);
    assert!(!t.tick_execute());
    assert_eq!(t.remaining, 1);
    assert!(t.tick_execute());
    assert_eq!(t.remaining, 0);
    assert_eq!(t.state, TaskState::Completed);
    assert!(!t.tick_execute());
    assert_eq!(t.remaining, 0);
    assert_eq!(t.state, TaskState::Completed);
}

#[test]
fn check_deadline_before_deadline_is_no_miss() {
    let mut t = Task::new(0, 10, 8, 2);
    t.release(0);
    assert!(!t.check_deadline(7));
    assert_eq!(t.state, TaskState::Ready);
    assert_eq!(t.remaining, 2);
    assert_eq!(t.deadline_misses, 0);
}

#[test]
fn check_deadline_miss_abandons_job_once() {
    let mut t = Task::new(0, 10, 8, 2);
    t.release(0);
    assert!(t.check_deadline(8));
    assert_eq!(t.state, TaskState::Completed);
    assert_eq!(t.remaining, 0);
    assert_eq!(t.deadline_misses, 1);
    assert!(!t.check_deadline(9));
    assert!(!t.check_deadline(100));
    assert_eq!(t.deadline_misses, 1);
}

#[test]
fn check_deadline_ignores_running_task() {
    let mut t = Task::new(0, 10, 5, 3);
    t.release(0);
    t.state = TaskState::Running;
    assert!(!t.check_deadline(6));
    assert_eq!(t.state, TaskState::Running);
    assert_eq!(t.deadline_misses, 0);
}
