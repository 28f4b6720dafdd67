use mill_io::thread_pool::{
    capacity_or_default, ComputePoolMetrics, ComputeQueue, RoundRobin, TaskPriority, WorkerStep,
    DEFAULT_POOL_CAPACITY,
};

fn run_next(q: &mut ComputeQueue<u32>) -> u32 {
    match q.next_step(0) {
        WorkerStep::Run(t) => {
            q.finish(0, true, 10);
            t.task
        }
        WorkerStep::Wait => panic!("expected a task, got Wait"),
        WorkerStep::Exit => panic!("expected a task, got Exit"),
    }
}

#[test]
fn compute_queue_runs_by_priority_then_submission() {
    // Queued while a task runs: 2 (Low), 3 (High), 4 (Normal).
    let mut q = ComputeQueue::new(1);
    q.spawn(2u32, TaskPriority::Low);
    q.spawn(3u32, TaskPriority::High);
    q.spawn(4u32, TaskPriority::Normal);
    assert_eq!(run_next(&mut q), 3);
    assert_eq!(run_next(&mut q), 4);
    assert_eq!(run_next(&mut q), 2);
}

#[test]
fn compute_queue_is_fifo_within_a_priority() {
    let mut q = ComputeQueue::new(1);
    q.spawn(1u32, TaskPriority::Normal);
    q.spawn(2u32, TaskPriority::Critical);
    q.spawn(3u32, TaskPriority::Normal);
    q.spawn(4u32, TaskPriority::Critical);
    assert_eq!(run_next(&mut q), 2);
    assert_eq!(run_next(&mut q), 4);
    assert_eq!(run_next(&mut q), 1);
    assert_eq!(run_next(&mut q), 3);
}

#[test]
fn compute_queue_sequences_count_up() {
    let mut q = ComputeQueue::new(1);
    q.spawn('a', TaskPriority::Low);
    q.spawn('b', TaskPriority::Low);
    match q.next_step(0) {
        WorkerStep::Run(t) => {
            assert_eq!(t.sequence, 0);
            assert_eq!(t.priority, TaskPriority::Low);
            assert_eq!(t.task, 'a');
        }
        _ => panic!("expected a task"),
    }
    q.finish(0, true, 1);
    match q.next_step(0) {
        WorkerStep::Run(t) => assert_eq!(t.sequence, 1),
        _ => panic!("expected a task"),
    }
}

#[test]
fn compute_queue_metrics_track_depths_and_outcomes() {
    let mut q = ComputeQueue::new(2);
    assert_eq!(q.workers_len(), 2);
    let m = q.metrics();
    assert_eq!(m.tasks_submitted(), 0);
    q.spawn(1u32, TaskPriority::Low);
    q.spawn(2u32, TaskPriority::Normal);
    q.spawn(3u32, TaskPriority::High);
    q.spawn(4u32, TaskPriority::Critical);
    q.spawn(5u32, TaskPriority::Critical);
    let m = q.metrics();
    assert_eq!(m.tasks_submitted(), 5);
    assert_eq!(m.queue_depth_low(), 1);
    assert_eq!(m.queue_depth_normal(), 1);
    assert_eq!(m.queue_depth_high(), 1);
    assert_eq!(m.queue_depth_critical(), 2);

    assert!(matches!(q.next_step(0), WorkerStep::Run(_)));
    assert!(matches!(q.next_step(1), WorkerStep::Run(_)));
    assert!(q.is_running(0) && q.is_running(1));
    let m = q.metrics();
    assert_eq!(m.active_workers(), 2);
    assert_eq!(m.queue_depth_critical(), 0);

    q.finish(0, true, 100);
    q.finish(1, false, 250);
    assert!(!q.is_running(0) && !q.is_running(1));
    let m = q.metrics();
    assert_eq!(m.active_workers(), 0);
    assert_eq!(m.tasks_completed(), 1);
    assert_eq!(m.tasks_failed(), 1);
    assert_eq!(m.total_execution_time_ns(), 350);
    // submitted == completed + failed + running + queued
    assert_eq!(
        m.tasks_submitted(),
        m.tasks_completed() + m.tasks_failed() + m.active_workers() as u64 + 3
    );
}

#[test]
fn compute_queue_waits_then_drains_then_exits() {
    let mut q: ComputeQueue<u32> = ComputeQueue::new(1);
    assert!(matches!(q.next_step(0), WorkerStep::Wait));
    q.spawn(1, TaskPriority::Low);
    q.shutdown();
    assert!(q.is_shutdown());
    // Queued work still runs after the shutdown request.
    assert_eq!(run_next(&mut q), 1);
    assert!(q.is_empty());
    assert!(matches!(q.next_step(0), WorkerStep::Exit));
    let m = q.metrics();
    assert_eq!(m.tasks_completed() + m.tasks_failed(), m.tasks_submitted());
    assert_eq!(m.active_workers(), 0);
}

#[test]
fn unused_priority_keeps_zero_depth_and_time_accumulates() {
    let mut q = ComputeQueue::new(1);
    q.spawn(1u32, TaskPriority::Low);
    q.spawn(2u32, TaskPriority::High);
    assert_eq!(q.metrics().queue_depth_critical(), 0);
    assert_eq!(run_next(&mut q), 2);
    let t1 = q.metrics().total_execution_time_ns();
    assert_eq!(run_next(&mut q), 1);
    let t2 = q.metrics().total_execution_time_ns();
    assert!(t1 <= t2);
    assert_eq!(t2, 20);
    assert_eq!(q.metrics().queue_depth_critical(), 0);
    assert_eq!(q.metrics().tasks_submitted(), 2);
}

#[test]
fn default_metrics_are_zero() {
    let m = ComputePoolMetrics::default();
    assert_eq!(m.tasks_submitted(), 0);
    assert_eq!(m.tasks_completed(), 0);
    assert_eq!(m.tasks_failed(), 0);
    assert_eq!(m.active_workers(), 0);
    assert_eq!(m.total_execution_time_ns(), 0);
}

#[test]
fn task_priority_levels_are_ordered() {
    assert_eq!(TaskPriority::Low.level(), 0);
    assert_eq!(TaskPriority::Normal.level(), 1);
    assert_eq!(TaskPriority::High.level(), 2);
    assert_eq!(TaskPriority::Critical.level(), 3);
    assert!(TaskPriority::Critical > TaskPriority::High);
    assert!(TaskPriority::Normal > TaskPriority::Low);
}

#[test]
fn round_robin_cycles_through_workers() {
    let mut rr = RoundRobin::new(3);
    assert_eq!(rr.workers_len(), 3);
    let picks: Vec<usize> = (0..7).map(|_| rr.next_worker()).collect();
    assert_eq!(picks, vec![0, 1, 2, 0, 1, 2, 0]);
}

#[test]
fn capacity_falls_back_to_default() {
    assert_eq!(capacity_or_default(Some(12)), 12);
    assert_eq!(capacity_or_default(None), DEFAULT_POOL_CAPACITY);
    assert_eq!(DEFAULT_POOL_CAPACITY, 4);
}

#[test]
fn default_priority_is_normal() {
    assert_eq!(TaskPriority::default(), TaskPriority::Normal);
}

#[test]
fn submitted_counts_every_spawn() {
    let mut q: ComputeQueue<u32> = ComputeQueue::new(1);
    q.spawn(1, TaskPriority::Low);
    q.spawn(2, TaskPriority::Critical);
    q.spawn(3, TaskPriority::Normal);
    assert_eq!(q.metrics().tasks_submitted(), 3);
    assert_eq!(run_next(&mut q), 2);
    assert_eq!(q.metrics().tasks_submitted(), 3);
    match q.next_step(0) {
        WorkerStep::Run(_) => q.finish(0, false, 5),
        _ => panic!("expected a task"),
    }
    q.spawn(4, TaskPriority::High);
    assert_eq!(q.metrics().tasks_submitted(), 4);
    assert_eq!(q.metrics().tasks_completed(), 1);
    assert_eq!(q.metrics().tasks_failed(), 1);
}
