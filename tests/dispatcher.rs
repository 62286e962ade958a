use worker_pool::dispatcher::Dispatcher;
use worker_pool::model::{Instruction, PoolError, WorkerState};

fn run_ticket<J>(i: Instruction<J>) -> (u64, J) {
    match i {
        Instruction::Run { ticket, job } => (ticket, job),
        Instruction::Wait => panic!("expected a job, got Wait"),
        Instruction::Exit => panic!("expected a job, got Exit"),
    }
}

fn is_exit<J>(i: &Instruction<J>) -> bool {
    matches!(i, Instruction::Exit)
}

fn is_wait<J>(i: &Instruction<J>) -> bool {
    matches!(i, Instruction::Wait)
}

#[test]
fn zero_workers_is_refused() {
    let r = Dispatcher::<u8>::new(0);
    assert!(matches!(r, Err(PoolError::NoWorkers)));
}

#[test]
fn new_pool_is_open_and_idle() {
    let d = Dispatcher::<u8>::new(4).unwrap();
    assert_eq!(d.worker_count(), 4);
    assert!(d.is_open());
    assert_eq!(d.submitted(), 0);
    assert_eq!(d.queued(), 0);
    assert_eq!(d.joined(), 0);
    for w in 0..4 {
        assert_eq!(d.worker_state(w), WorkerState::Idle);
    }
}

#[test]
fn idle_pool_shuts_down_without_waiting() {
    for size in 1..6usize {
        let mut d = Dispatcher::<u8>::new(size).unwrap();
        d.close();
        for w in 0..size {
            assert!(is_exit(&d.receive(w)));
            assert_eq!(d.worker_state(w), WorkerState::Exited);
        }
        for w in 0..size {
            assert!(d.record_join(w));
        }
        assert_eq!(d.joined(), size);
    }
}

#[test]
fn every_job_runs_exactly_once() {
    let mut d = Dispatcher::<u32>::new(3).unwrap();
    for label in 0..10u32 {
        assert_eq!(d.submit(label * 7), Ok(label as u64));
    }
    d.close();
    let mut seen: Vec<(u64, u32)> = Vec::new();
    let mut exited = [false; 3];
    while exited.iter().any(|e| !e) {
        for w in 0..3 {
            if exited[w] {
                continue;
            }
            match d.receive(w) {
                Instruction::Run { ticket, job } => {
                    seen.push((ticket, job));
                    d.complete(w);
                }
                Instruction::Exit => exited[w] = true,
                Instruction::Wait => panic!("a closed pool never says wait"),
            }
        }
    }
    let expected: Vec<(u64, u32)> = (0..10u32).map(|i| (i as u64, i * 7)).collect();
    assert_eq!(seen, expected);
    assert_eq!(d.queued(), 0);
    for w in 0..3 {
        assert!(d.record_join(w));
    }
}

#[test]
fn two_workers_never_get_the_same_job() {
    let mut d = Dispatcher::<&str>::new(2).unwrap();
    d.submit("first").unwrap();
    d.submit("second").unwrap();
    let (t0, j0) = run_ticket(d.receive(0));
    let (t1, j1) = run_ticket(d.receive(1));
    assert_eq!((t0, j0), (0, "first"));
    assert_eq!((t1, j1), (1, "second"));
    assert_eq!(d.worker_state(0), WorkerState::Busy(0));
    assert_eq!(d.worker_state(1), WorkerState::Busy(1));
    d.complete(0);
    assert!(is_wait(&d.receive(0)));
    assert_eq!(d.worker_state(0), WorkerState::Idle);
}

#[test]
fn submit_after_close_is_refused() {
    let mut d = Dispatcher::<u8>::new(2).unwrap();
    assert_eq!(d.submit(1), Ok(0));
    d.close();
    assert!(!d.is_open());
    assert_eq!(d.submit(2), Err(PoolError::Closed));
    assert_eq!(d.submitted(), 1);
    assert_eq!(d.queued(), 1);
    d.close();
    assert!(!d.is_open());
}

#[test]
fn four_workers_finish_in_order_of_delay() {
    // labels 1, 2, 3 sleep 70, 40, 10 ms; label 0 does not sleep
    let mut d = Dispatcher::<(u8, u64)>::new(4).unwrap();
    for i in 1..=3u64 {
        d.submit((i as u8, 100 - i * 30)).unwrap();
    }
    d.submit((0, 0)).unwrap();
    let mut running: Vec<(usize, u8, u64)> = Vec::new();
    for w in 0..4 {
        let (_, (label, delay)) = run_ticket(d.receive(w));
        running.push((w, label, delay));
    }
    let started: Vec<u8> = running.iter().map(|r| r.1).collect();
    assert_eq!(started, vec![1, 2, 3, 0]);
    running.sort_by_key(|r| r.2);
    let mut log: Vec<u8> = Vec::new();
    for (w, label, _) in running {
        log.push(label);
        d.complete(w);
    }
    d.close();
    for w in 0..4 {
        assert!(is_exit(&d.receive(w)));
    }
    for w in 0..4 {
        assert!(d.record_join(w));
    }
    assert_eq!(log.len(), 4);
    assert_eq!(log, vec![0, 3, 2, 1]);
}

#[test]
fn one_worker_runs_jobs_one_after_another() {
    let mut d = Dispatcher::<char>::new(1).unwrap();
    d.submit('A').unwrap();
    d.submit('B').unwrap();
    assert_eq!(run_ticket(d.receive(0)), (0, 'A'));
    assert_eq!(d.worker_state(0), WorkerState::Busy(0));
    assert_eq!(d.queued(), 1);
    d.complete(0);
    assert_eq!(run_ticket(d.receive(0)), (1, 'B'));
    d.complete(0);
    assert!(is_wait(&d.receive(0)));
}

#[test]
fn failed_job_leaves_other_workers_running() {
    let mut d = Dispatcher::<u8>::new(2).unwrap();
    for j in 10..13u8 {
        d.submit(j).unwrap();
    }
    assert_eq!(run_ticket(d.receive(0)), (0, 10));
    d.fail(0);
    assert_eq!(d.worker_state(0), WorkerState::Failed(0));
    d.close();
    assert_eq!(run_ticket(d.receive(1)), (1, 11));
    d.complete(1);
    assert_eq!(run_ticket(d.receive(1)), (2, 12));
    d.complete(1);
    assert!(is_exit(&d.receive(1)));
    assert!(d.record_join(0));
    assert!(d.record_join(1));
    assert_eq!(d.joined(), 2);
}

#[test]
fn joins_follow_construction_order_after_teardown() {
    let mut d = Dispatcher::<u8>::new(2).unwrap();
    assert!(is_wait(&d.receive(0)));
    assert!(!d.record_join(0));
    d.submit(5).unwrap();
    d.close();
    run_ticket(d.receive(0));
    assert!(is_exit(&d.receive(1)));
    assert!(!d.record_join(1));
    assert!(!d.record_join(0));
    d.complete(0);
    assert!(is_exit(&d.receive(0)));
    assert!(!d.record_join(1));
    assert!(d.record_join(0));
    assert!(!d.record_join(0));
    assert!(d.record_join(1));
    assert!(!d.record_join(2));
    assert_eq!(d.joined(), 2);
}

#[test]
fn queue_holds_boxed_closures() {
    let mut d = Dispatcher::<Box<dyn FnOnce() -> u32>>::new(1).unwrap();
    let base = 40u32;
    d.submit(Box::new(move || base + 2)).unwrap();
    d.submit(Box::new(|| 7)).unwrap();
    let (_, f) = run_ticket(d.receive(0));
    assert_eq!(f(), 42);
    d.complete(0);
    let (_, g) = run_ticket(d.receive(0));
    assert_eq!(g(), 7);
}
