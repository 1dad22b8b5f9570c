use slingshot::scheduler::{worker_count, RoundRobin, TaskCounter, TaskExit};

#[test]
fn last_task_shuts_the_queue_down() {
    let mut c = TaskCounter::new();
    assert!(c.spawn());
    assert!(c.spawn());
    assert!(matches!(c.drop_task(), TaskExit::Continue));
    assert!(matches!(c.drop_task(), TaskExit::Shutdown));
}

#[test]
fn shut_down_queue_refuses_tasks() {
    let mut c = TaskCounter::new();
    assert!(c.spawn());
    assert!(matches!(c.drop_task(), TaskExit::Shutdown));
    assert!(!c.spawn());
    assert!(!c.spawn());
}

#[test]
fn spawn_then_complete_keeps_running() {
    let mut c = TaskCounter::new();
    assert!(c.spawn());
    assert!(c.spawn());
    assert!(matches!(c.drop_task(), TaskExit::Continue));
    assert!(c.spawn());
    assert!(matches!(c.drop_task(), TaskExit::Continue));
    assert!(matches!(c.drop_task(), TaskExit::Shutdown));
}

#[test]
fn round_robin_cycles_over_workers() {
    let mut r = RoundRobin::new();
    let picks: Vec<usize> = (0..7).map(|_| r.pick(3)).collect();
    assert_eq!(picks, vec![0, 1, 2, 0, 1, 2, 0]);
}

#[test]
fn round_robin_restarts_when_workers_shrink() {
    let mut r = RoundRobin::new();
    assert_eq!(r.pick(4), 0);
    assert_eq!(r.pick(4), 1);
    assert_eq!(r.pick(4), 2);
    assert_eq!(r.pick(2), 0);
    assert_eq!(r.pick(2), 1);
}

#[test]
fn single_thread_machine_gets_two_workers() {
    assert_eq!(worker_count(1), 2);
    assert_eq!(worker_count(2), 2);
    assert_eq!(worker_count(16), 16);
}
