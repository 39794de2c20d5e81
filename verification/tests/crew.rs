use glideslope::crew::queue::TaskQueue;
use glideslope::crew::task::{Task, TaskSource};
use glideslope::sim_core::ids::TaskId;
use glideslope::sim_core::time::Duration;

/// The FO's pace: `base` scaled by the speed multiplier of an FO with the
/// given experience (2.0 for a brand-new FO, 1.0 for a proficient one).
fn pace(experience: f64) -> impl Fn(Duration) -> Duration {
    let multiplier = 2.0 - experience.clamp(0.0, 1.0);
    move |base: Duration| {
        let std_base = std::time::Duration::new(
            u64::try_from(base.nanos / 1_000_000_000).unwrap(),
            (base.nanos % 1_000_000_000) as u32,
        );
        Duration { nanos: std_base.mul_f64(multiplier).as_nanos() }
    }
}

fn task(id: u64, duration_secs: u64) -> Task {
    Task::new(TaskId(id), format!("task-{id}"), Duration::from_secs(duration_secs), TaskSource::Adhoc)
}

#[test]
fn delegating_to_an_idle_queue_starts_execution_immediately() {
    let mut queue = TaskQueue::new();
    let fo = pace(1.0);
    queue.delegate(task(1, 10), &fo);

    assert!(queue.executing().is_some());
    assert_eq!(queue.executing().unwrap().task.id, TaskId(1));
    assert_eq!(queue.pending().iter().count(), 0);
}

#[test]
fn a_second_task_waits_in_the_pending_queue() {
    let mut queue = TaskQueue::new();
    let fo = pace(1.0);
    queue.delegate(task(1, 10), &fo);
    queue.delegate(task(2, 5), &fo);

    assert_eq!(queue.executing().unwrap().task.id, TaskId(1));
    assert_eq!(queue.pending().iter().count(), 1);
    assert_eq!(queue.pending().iter().next().unwrap().id, TaskId(2));
}

#[test]
fn completing_a_task_starts_the_next_pending_one() {
    let mut queue = TaskQueue::new();
    let fo = pace(1.0);
    queue.delegate(task(1, 1), &fo);
    queue.delegate(task(2, 5), &fo);

    let completed = queue.integrate(Duration::from_secs(1), &fo);

    assert_eq!(completed.map(|t| t.id), Some(TaskId(1)));
    assert_eq!(queue.executing().unwrap().task.id, TaskId(2));
    assert_eq!(queue.pending().iter().count(), 0);
}

#[test]
fn integrate_returns_none_while_a_task_is_still_in_progress() {
    let mut queue = TaskQueue::new();
    let fo = pace(1.0);
    queue.delegate(task(1, 10), &fo);

    let completed = queue.integrate(Duration::from_secs(1), &fo);

    assert_eq!(completed, None);
    assert!(queue.executing().unwrap().remaining < Duration::from_secs(10));
}

#[test]
fn integrate_on_an_empty_queue_does_nothing_and_does_not_panic() {
    let mut queue = TaskQueue::new();
    let fo = pace(1.0);
    assert_eq!(queue.integrate(Duration::from_secs(1), &fo), None);
}

#[test]
fn a_less_experienced_fo_takes_longer_to_finish_the_same_task() {
    let mut rookie_queue = TaskQueue::new();
    let mut veteran_queue = TaskQueue::new();
    let rookie = pace(0.0);
    let veteran = pace(1.0);

    rookie_queue.delegate(task(1, 10), &rookie);
    veteran_queue.delegate(task(1, 10), &veteran);

    assert!(
        rookie_queue.executing().unwrap().remaining
            > veteran_queue.executing().unwrap().remaining
    );
}

#[test]
fn tasks_finish_in_the_order_they_were_delegated() {
    let mut queue = TaskQueue::new();
    let fo = pace(1.0);
    for id in 1..=4 {
        queue.delegate(task(id, 1), &fo);
    }
    let mut finished = Vec::new();
    for _ in 0..10 {
        if let Some(done) = queue.integrate(Duration::from_millis(1000), &fo) {
            finished.push(done.id);
        }
    }
    assert_eq!(finished, vec![TaskId(1), TaskId(2), TaskId(3), TaskId(4)]);
    assert!(queue.executing().is_none());
}

#[test]
fn remaining_time_counts_down_by_each_step() {
    let mut queue = TaskQueue::new();
    let fo = pace(0.0);
    queue.delegate(task(9, 3), &fo);
    assert_eq!(queue.executing().unwrap().remaining, Duration::from_secs(6));
    assert_eq!(queue.integrate(Duration::from_millis(2500), &fo), None);
    assert_eq!(queue.executing().unwrap().remaining, Duration::from_millis(3500));
    let done = queue.integrate(Duration::from_millis(3500), &fo).unwrap();
    assert_eq!(done.description, "task-9");
}
