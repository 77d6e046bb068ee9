use notify_bot::job::{ExitReason, JobAction, JobEvent, TaskEditType};
use notify_bot::schedule::{
    signal_answer, JobGone, NotFoundError, ScheduleTask, TaskPool, EDIT_QUEUE_CAPACITY,
};

fn task(interval: u64, text: &str, groups: Vec<i64>) -> ScheduleTask {
    ScheduleTask::new()
        .interval(interval)
        .pending_notification(vec![text.to_string()])
        .groups(groups)
}

fn sorted_list(pool: &TaskPool) -> Vec<(u32, u64, String)> {
    let mut list = pool.list_task();
    list.sort();
    list
}

#[test]
fn new_pool_lists_nothing() {
    let pool = TaskPool::new();
    assert_eq!(pool.list_task(), Vec::<(u32, u64, String)>::new());
}

#[test]
fn add_task_hands_out_growing_identifiers() {
    let mut pool = TaskPool::new();
    let (a, _run_a) = pool.add_task(task(1, "a", vec![1]));
    let (b, _run_b) = pool.add_task(task(2, "b", vec![1]));
    let (c, _run_c) = pool.add_task(task(3, "c", vec![1]));
    assert_eq!((a, b, c), (0, 1, 2));
}

#[test]
fn identifiers_are_not_reused_after_removal() {
    let mut pool = TaskPool::new();
    let (a, _run_a) = pool.add_task(task(1, "a", vec![1]));
    let (b, _run_b) = pool.add_task(task(1, "b", vec![1]));
    assert_eq!(pool.remove(b), Ok(()));
    assert_eq!(pool.remove(a), Ok(()));
    let (c, _run_c) = pool.add_task(task(1, "c", vec![1]));
    assert!(c > a && c > b);
    assert_eq!(c, 2);
}

#[test]
fn list_task_shows_identifier_interval_and_first_text() {
    let mut pool = TaskPool::new();
    let spec = ScheduleTask::new()
        .interval(60)
        .pending_notification(vec!["first".to_string(), "second".to_string()])
        .groups(vec![-100, 7]);
    let (_id, _run) = pool.add_task(spec);
    let (_id, _run2) = pool.add_task(task(5, "other", vec![7]));
    assert_eq!(
        sorted_list(&pool),
        vec![(0, 60, "first".to_string()), (1, 5, "other".to_string())]
    );
}

#[test]
fn remove_drops_the_entry_for_good() {
    let mut pool = TaskPool::new();
    let (a, _run_a) = pool.add_task(task(1, "a", vec![1]));
    let (b, _run_b) = pool.add_task(task(1, "b", vec![1]));
    assert_eq!(pool.remove(a), Ok(()));
    assert_eq!(sorted_list(&pool), vec![(b, 1, "b".to_string())]);
    let (_c, _run_c) = pool.add_task(task(1, "c", vec![1]));
    assert!(pool.list_task().iter().all(|line| line.0 != a));
}

#[test]
fn remove_of_unknown_identifier_fails_and_changes_nothing() {
    let mut pool = TaskPool::new();
    let (_a, _run_a) = pool.add_task(task(9, "a", vec![1]));
    let before = sorted_list(&pool);
    assert_eq!(pool.remove(41), Err(NotFoundError { id: 41 }));
    assert_eq!(sorted_list(&pool), before);
    let (next, _run) = pool.add_task(task(1, "b", vec![1]));
    assert_eq!(next, 1);
}

#[test]
fn remove_on_empty_pool_is_not_found() {
    let mut pool = TaskPool::new();
    assert_eq!(pool.remove(0), Err(NotFoundError { id: 0 }));
}

#[test]
fn second_remove_of_same_identifier_is_not_found() {
    let mut pool = TaskPool::new();
    let (a, _run_a) = pool.add_task(task(1, "a", vec![1]));
    let answers: Vec<Result<(), NotFoundError>> = (0..4).map(|_| pool.remove(a)).collect();
    assert_eq!(answers.iter().filter(|answer| answer.is_ok()).count(), 1);
    assert_eq!(answers[0], Ok(()));
    for answer in &answers[1..] {
        assert_eq!(*answer, Err(NotFoundError { id: a }));
    }
}

#[test]
fn remove_sends_the_cancellation_signal_to_that_job_only() {
    let mut pool = TaskPool::new();
    let (a, run_a) = pool.add_task(task(1, "a", vec![1]));
    let (_b, run_b) = pool.add_task(task(1, "b", vec![1]));
    assert_eq!(run_a.signal_rx.has_changed().ok(), Some(false));
    assert_eq!(*run_a.signal_rx.borrow(), 0);
    assert_eq!(pool.remove(a), Ok(()));
    assert_eq!(*run_a.signal_rx.borrow(), 1);
    assert_eq!(run_b.signal_rx.has_changed().ok(), Some(false));
    assert_eq!(*run_b.signal_rx.borrow(), 0);
}

#[test]
fn remove_succeeds_even_if_the_loop_is_gone() {
    let mut pool = TaskPool::new();
    let (a, run) = pool.add_task(task(1, "a", vec![1]));
    drop(run);
    assert_eq!(pool.remove(a), Ok(()));
    assert_eq!(pool.list_task().len(), 0);
}

#[test]
fn summary_does_not_follow_later_edits() {
    let mut pool = TaskPool::new();
    let (a, mut run) = pool.add_task(task(3, "first", vec![1]));
    let action = run.job.step(JobEvent::Edit(TaskEditType::AddNotification("later".to_string())));
    assert_eq!(action, JobAction::Wait);
    assert_eq!(pool.list_task(), vec![(a, 3, "first".to_string())]);
}

#[test]
fn run_gives_the_loop_what_the_specification_holds() {
    let spec = task(30, "hello", vec![5, 6]);
    let (info, mut run) = spec.run(17);
    assert_eq!(info.interval(), 30);
    assert_eq!(info.content(), "hello");
    assert_eq!(run.job.id(), 17);
    assert_eq!(run.job.interval(), 30);
    assert!(run.job.is_running());
    match run.job.step(JobEvent::Tick) {
        JobAction::FanOut(round) => {
            assert_eq!(round.text, "hello");
            assert_eq!(round.destinations, vec![5, 6]);
            assert_eq!(round.buttons, None);
        }
        other => panic!("unexpected action {:?}", other),
    }
}

#[test]
fn shutdown_reaches_the_loop_and_fails_once_it_is_gone() {
    let (info, run) = task(1, "a", vec![1]).run(0);
    assert_eq!(info.sig().shutdown(), Ok(()));
    assert_eq!(run.signal_rx.has_changed().ok(), Some(true));
    drop(run);
    assert_eq!(info.sig().shutdown(), Err(JobGone));
}

#[test]
fn editor_feeds_the_mutation_queue_of_the_loop() {
    let (info, mut run) = task(1, "a", vec![1]).run(0);
    assert!(info.editor().0.try_send(TaskEditType::AddNotification("b".to_string())).is_ok());
    let edit = run.editor_rx.try_recv().unwrap();
    assert_eq!(edit, TaskEditType::AddNotification("b".to_string()));
    assert_eq!(run.job.step(JobEvent::Edit(edit)), JobAction::Wait);
}

#[test]
fn mutation_queue_holds_three_edits() {
    let (info, _run) = task(1, "a", vec![1]).run(0);
    for n in 0..3 {
        assert!(info.editor().0.try_send(TaskEditType::AddNotification(format!("{}", n))).is_ok());
    }
    assert!(info.editor().0.try_send(TaskEditType::AddNotification("full".to_string())).is_err());
}

#[test]
fn stop_signals_on_the_specifications_own_channel() {
    let spec = task(1, "a", vec![1]);
    assert!(spec.stop());
    let (_info, run) = spec.run(0);
    assert_eq!(run.signal_rx.has_changed().ok(), Some(true));
}

#[test]
fn new_specification_is_empty_and_not_valid() {
    let spec = ScheduleTask::new();
    assert!(!spec.is_valid());
}

#[test]
fn specification_needs_interval_text_and_destination() {
    assert!(task(1, "a", vec![1]).is_valid());
    assert!(!task(0, "a", vec![1]).is_valid());
    assert!(!task(1, "a", vec![]).is_valid());
    assert!(!ScheduleTask::new().interval(1).groups(vec![1]).is_valid());
    assert!(!ScheduleTask::new().interval(1).pending_notification(vec![]).groups(vec![1]).is_valid());
}

#[test]
fn builders_replace_earlier_values() {
    let spec = task(1, "a", vec![1])
        .interval(9)
        .pending_notification(vec!["x".to_string(), "y".to_string()])
        .groups(vec![3, 4]);
    let (info, mut run) = spec.run(2);
    assert_eq!((info.interval(), info.content().as_str()), (9, "x"));
    match run.job.step(JobEvent::Tick) {
        JobAction::FanOut(round) => assert_eq!((round.text.as_str(), round.destinations), ("x", vec![3, 4])),
        other => panic!("unexpected action {:?}", other),
    }
}

#[test]
fn failed_send_neither_stops_delivery_nor_the_job() {
    const A: i64 = 1001;
    const B: i64 = 1002;
    let mut pool = TaskPool::new();
    let (id, mut run) = pool.add_task(task(1, "Hello", vec![A, B]));
    let round = match run.job.step(JobEvent::Tick) {
        JobAction::FanOut(round) => round,
        other => panic!("unexpected action {:?}", other),
    };
    assert_eq!(round.text, "Hello");
    assert_eq!(round.destinations, vec![A, B]);
    let sent: Vec<bool> = round.destinations.iter().map(|destination| *destination != B).collect();
    assert_eq!(sent, vec![true, false]);
    assert_eq!(run.job.step(JobEvent::Delivered(sent)), JobAction::Report(vec![B]));
    assert!(run.job.is_running());
    assert!(pool.list_task().iter().any(|line| line.0 == id));
    match run.job.step(JobEvent::Tick) {
        JobAction::FanOut(next) => assert_eq!(next.destinations, vec![A, B]),
        other => panic!("unexpected action {:?}", other),
    }
    assert_eq!(run.job.step(JobEvent::Shutdown), JobAction::Exit(ExitReason::Cancelled));
}

#[test]
fn concurrent_removes_of_one_identifier_succeed_once() {
    let runtime = tokio::runtime::Builder::new_multi_thread()
        .worker_threads(4)
        .build()
        .unwrap();
    let pool = std::sync::Arc::new(parking_lot::RwLock::new(TaskPool::new()));
    let (kept, _run_kept) = pool.write().add_task(task(1, "kept", vec![1]));
    let (id, _run) = pool.write().add_task(task(1, "a", vec![1]));
    let answers = runtime.block_on(async {
        let mut callers = Vec::new();
        for _ in 0..16 {
            let pool = pool.clone();
            callers.push(tokio::spawn(async move { pool.write().remove(id) }));
        }
        let mut answers = Vec::new();
        for caller in callers {
            answers.push(caller.await.unwrap());
        }
        answers
    });
    assert_eq!(answers.len(), 16);
    assert_eq!(answers.iter().filter(|answer| answer.is_ok()).count(), 1);
    assert!(answers.iter().all(|answer| answer.is_ok() || *answer == Err(NotFoundError { id })));
    assert_eq!(pool.read().list_task(), vec![(kept, 1, "kept".to_string())]);
}

#[test]
fn concurrent_adds_get_distinct_identifiers() {
    let runtime = tokio::runtime::Builder::new_multi_thread()
        .worker_threads(4)
        .build()
        .unwrap();
    let pool = std::sync::Arc::new(parking_lot::RwLock::new(TaskPool::new()));
    let mut ids = runtime.block_on(async {
        let mut callers = Vec::new();
        for n in 0..16u64 {
            let pool = pool.clone();
            callers.push(tokio::spawn(async move {
                let (id, _run) = pool.write().add_task(task(n + 1, "a", vec![1]));
                id
            }));
        }
        let mut ids = Vec::new();
        for caller in callers {
            ids.push(caller.await.unwrap());
        }
        ids
    });
    ids.sort();
    assert_eq!(ids, (0..16).collect::<Vec<u32>>());
    assert_eq!(pool.read().list_task().len(), 16);
}

#[test]
fn mutation_queue_is_made_with_the_capacity_for_edits() {
    assert_eq!(EDIT_QUEUE_CAPACITY, 3);
    let (info, run) = task(1, "a", vec![1]).run(0);
    assert_eq!(info.editor().0.max_capacity(), EDIT_QUEUE_CAPACITY);
    assert_eq!(run.editor_rx.max_capacity(), EDIT_QUEUE_CAPACITY);
    assert!(info.editor().0.try_send(TaskEditType::AddNotification("b".to_string())).is_ok());
    assert_eq!(info.editor().0.max_capacity(), EDIT_QUEUE_CAPACITY);
    assert_eq!(info.editor().0.capacity(), EDIT_QUEUE_CAPACITY - 1);
}

#[test]
fn signal_answer_tells_sent_from_gone() {
    assert_eq!(signal_answer(true), Ok(()));
    assert_eq!(signal_answer(false), Err(JobGone));
}
