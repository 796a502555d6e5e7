use hello_tcp::{ThreadPool, ThreadPoolBuildError, WorkerState, WorkerStep};

fn run_value(step: WorkerStep<u32>) -> Option<u32> {
    match step {
        WorkerStep::Run(j) => Some(j),
        _ => None,
    }
}

#[test]
fn build_zero_fails_with_invalid_size() {
    let r = ThreadPool::<u32>::build(0);
    assert!(matches!(r, Err(ThreadPoolBuildError::InvalidSize { size: 0 })));
}

#[test]
fn build_creates_exactly_size_idle_workers() {
    for size in [1usize, 2, 4, 9] {
        let p = ThreadPool::<u32>::build(size).unwrap();
        assert_eq!(p.size(), size);
        for id in 0..size {
            assert_eq!(p.worker_state(id), WorkerState::Idle);
        }
        assert!(!p.is_shut_down());
        assert!(!p.is_terminated());
    }
}

#[test]
fn jobs_are_handed_out_once_in_submission_order() {
    let mut p = ThreadPool::<u32>::build(3).unwrap();
    for j in 1..=5u32 {
        p.execute(j);
    }
    let mut seen = Vec::new();
    for round in 0..2 {
        for id in 0..3 {
            if round == 1 && id == 2 {
                break;
            }
            seen.push(run_value(p.next_job(id)).unwrap());
            p.finish_job(id);
        }
    }
    assert_eq!(seen, vec![1, 2, 3, 4, 5]);
    assert!(matches!(p.next_job(0), WorkerStep::Wait));
}

#[test]
fn execute_after_shutdown_is_dropped() {
    let mut p = ThreadPool::<u32>::build(2).unwrap();
    p.shutdown();
    assert!(p.is_shut_down());
    p.execute(42);
    assert!(matches!(p.next_job(0), WorkerStep::Exit));
    assert!(matches!(p.next_job(1), WorkerStep::Exit));
    assert!(p.is_terminated());
}

#[test]
fn worker_takes_next_job_after_failed_one() {
    let mut p = ThreadPool::<u32>::build(1).unwrap();
    p.execute(1);
    p.execute(2);
    assert_eq!(run_value(p.next_job(0)), Some(1));
    assert_eq!(p.worker_state(0), WorkerState::Running);
    // the job failed; the worker reports back all the same
    p.finish_job(0);
    assert_eq!(p.worker_state(0), WorkerState::Idle);
    assert_eq!(run_value(p.next_job(0)), Some(2));
}

#[test]
fn shutdown_drains_queue_then_stops_every_worker() {
    let mut p = ThreadPool::<u32>::build(2).unwrap();
    p.execute(1);
    p.execute(2);
    p.execute(3);
    assert_eq!(run_value(p.next_job(0)), Some(1));
    p.shutdown();
    assert_eq!(run_value(p.next_job(1)), Some(2));
    p.finish_job(1);
    assert_eq!(run_value(p.next_job(1)), Some(3));
    p.finish_job(1);
    assert!(matches!(p.next_job(1), WorkerStep::Exit));
    assert!(!p.is_terminated());
    p.finish_job(0);
    assert!(matches!(p.next_job(0), WorkerStep::Exit));
    assert!(p.is_terminated());
    assert_eq!(p.join_order(), vec![0, 1]);
}

#[test]
fn join_order_is_ascending_ids() {
    let p = ThreadPool::<u32>::build(4).unwrap();
    assert_eq!(p.join_order(), vec![0, 1, 2, 3]);
}

#[test]
fn long_job_occupies_one_worker_and_later_jobs_queue() {
    let mut p = ThreadPool::<u32>::build(2).unwrap();
    p.execute(1);
    p.execute(2);
    p.execute(3);
    assert_eq!(run_value(p.next_job(0)), Some(1));
    assert_eq!(run_value(p.next_job(1)), Some(2));
    assert_eq!(p.worker_state(0), WorkerState::Running);
    assert_eq!(p.worker_state(1), WorkerState::Running);
    // both busy: job 3 waits until worker 1 frees, worker 0 still on job 1
    p.finish_job(1);
    assert_eq!(run_value(p.next_job(1)), Some(3));
    assert_eq!(p.worker_state(0), WorkerState::Running);
}

#[test]
fn slow_first_job_does_not_hold_back_the_rest() {
    let mut p = ThreadPool::<u32>::build(4).unwrap();
    for j in 1..=5u32 {
        p.execute(j);
    }
    assert_eq!(run_value(p.next_job(0)), Some(1));
    let mut done = Vec::new();
    for id in 1..4 {
        done.push(run_value(p.next_job(id)).unwrap());
    }
    p.finish_job(1);
    done.push(run_value(p.next_job(1)).unwrap());
    for id in 1..4 {
        p.finish_job(id);
    }
    assert_eq!(done, vec![2, 3, 4, 5]);
    assert_eq!(p.worker_state(0), WorkerState::Running);
    p.finish_job(0);
    p.shutdown();
    for id in 0..4 {
        assert!(matches!(p.next_job(id), WorkerStep::Exit));
    }
    assert!(p.is_terminated());
}
