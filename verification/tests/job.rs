use notify_bot::job::{collect_failed, ExitReason, JobAction, JobEvent, Round, TaskEditType, TaskLoop};
use notify_bot::keyboard::{Button, Keyboard};
use notify_bot::schedule::ScheduleTask;

fn keyboard() -> Keyboard {
    Keyboard::new(vec![vec![Button::url("Docs".to_string(), "https://example.com/".to_string())]])
}

fn job(texts: &[&str], groups: Vec<i64>) -> TaskLoop {
    let spec = ScheduleTask::new()
        .interval(1)
        .pending_notification(texts.iter().map(|t| t.to_string()).collect())
        .groups(groups)
        .msg_buttons(keyboard());
    spec.run(4).1.job
}

fn round(text: &str, groups: Vec<i64>) -> JobAction {
    JobAction::FanOut(Round { text: text.to_string(), buttons: Some(keyboard()), destinations: groups })
}

fn edit(text: &str) -> JobEvent {
    JobEvent::Edit(TaskEditType::AddNotification(text.to_string()))
}

#[test]
fn tick_asks_for_one_round_to_every_destination() {
    let mut job = job(&["Hello"], vec![10, 20, 30]);
    assert_eq!(job.step(JobEvent::Tick), round("Hello", vec![10, 20, 30]));
    assert!(job.is_running());
}

#[test]
fn two_ticks_ask_for_two_rounds() {
    let mut job = job(&["Hello"], vec![10, 20]);
    assert_eq!(job.step(JobEvent::Tick), round("Hello", vec![10, 20]));
    assert_eq!(job.step(JobEvent::Delivered(vec![true, true])), JobAction::Report(vec![]));
    assert_eq!(job.step(JobEvent::Tick), round("Hello", vec![10, 20]));
    assert_eq!(job.step(JobEvent::Delivered(vec![true, true])), JobAction::Report(vec![]));
}

#[test]
fn tick_during_a_round_starts_no_second_round() {
    let mut job = job(&["Hello"], vec![10, 20]);
    assert!(!job.in_flight());
    assert_eq!(job.step(JobEvent::Tick), round("Hello", vec![10, 20]));
    assert!(job.in_flight());
    assert_eq!(job.step(JobEvent::Tick), JobAction::Wait);
    assert_eq!(job.step(JobEvent::Tick), JobAction::Wait);
    assert_eq!(job.step(edit("later")), JobAction::Wait);
    assert!(job.in_flight());
    assert_eq!(job.step(JobEvent::Delivered(vec![true, true])), JobAction::Report(vec![]));
    assert!(!job.in_flight());
    assert_eq!(job.step(JobEvent::Tick), round("Hello", vec![10, 20]));
}

#[test]
fn cancellation_during_a_round_ends_the_loop() {
    let mut job = job(&["Hello"], vec![10]);
    assert_eq!(job.step(JobEvent::Tick), round("Hello", vec![10]));
    assert_eq!(job.step(JobEvent::Shutdown), JobAction::Exit(ExitReason::Cancelled));
    assert_eq!(job.step(JobEvent::Delivered(vec![true])), JobAction::Exit(ExitReason::Cancelled));
    assert_eq!(job.step(JobEvent::Tick), JobAction::Exit(ExitReason::Cancelled));
}

#[test]
fn round_carries_the_first_of_several_texts() {
    let mut job = job(&["one", "two", "three"], vec![10]);
    assert_eq!(job.step(JobEvent::Tick), round("one", vec![10]));
}

#[test]
fn appended_text_does_not_change_what_a_tick_sends() {
    let mut job = job(&["current"], vec![10]);
    assert_eq!(job.step(edit("appended")), JobAction::Wait);
    assert_eq!(job.step(JobEvent::Tick), round("current", vec![10]));
    assert_eq!(job.step(edit("another")), JobAction::Wait);
    assert_eq!(job.step(JobEvent::Delivered(vec![true])), JobAction::Report(vec![]));
    assert_eq!(job.step(JobEvent::Tick), round("current", vec![10]));
    assert!(job.is_running());
}

#[test]
fn shutdown_ends_the_loop() {
    let mut job = job(&["a"], vec![10]);
    assert_eq!(job.step(JobEvent::Shutdown), JobAction::Exit(ExitReason::Cancelled));
    assert!(!job.is_running());
}

#[test]
fn ended_loop_starts_no_further_round() {
    let mut job = job(&["a"], vec![10]);
    assert_eq!(job.step(JobEvent::Shutdown), JobAction::Exit(ExitReason::Cancelled));
    assert_eq!(job.step(JobEvent::Tick), JobAction::Exit(ExitReason::Cancelled));
    assert_eq!(job.step(edit("late")), JobAction::Exit(ExitReason::Cancelled));
    assert_eq!(job.step(JobEvent::EditorClosed { cancelled: false }), JobAction::Exit(ExitReason::Cancelled));
    assert_eq!(job.step(JobEvent::Delivered(vec![true])), JobAction::Exit(ExitReason::Cancelled));
    assert_eq!(job.step(JobEvent::Shutdown), JobAction::Exit(ExitReason::Cancelled));
    assert!(!job.is_running());
}

#[test]
fn closed_mutation_queue_ends_the_loop_abnormally() {
    let mut job = job(&["a"], vec![10]);
    assert_eq!(job.step(JobEvent::EditorClosed { cancelled: false }), JobAction::Exit(ExitReason::EditorClosed));
    assert!(!job.is_running());
    assert_eq!(job.step(JobEvent::Shutdown), JobAction::Exit(ExitReason::EditorClosed));
    assert_eq!(job.step(JobEvent::Tick), JobAction::Exit(ExitReason::EditorClosed));
}

#[test]
fn delivered_round_reports_failed_destinations_and_goes_on() {
    let mut job = job(&["a"], vec![10, 20, 30]);
    assert_eq!(job.step(JobEvent::Delivered(vec![true, false, true])), JobAction::Report(vec![20]));
    assert_eq!(job.step(JobEvent::Delivered(vec![true, true, true])), JobAction::Report(vec![]));
    assert_eq!(job.step(JobEvent::Delivered(vec![false, false, false])), JobAction::Report(vec![10, 20, 30]));
    assert!(job.is_running());
    assert_eq!(job.step(JobEvent::Tick), round("a", vec![10, 20, 30]));
}

#[test]
fn destination_without_a_flag_counts_as_failed() {
    assert_eq!(collect_failed(&vec![1, 2, 3], &vec![true]), vec![2, 3]);
    assert_eq!(collect_failed(&vec![1, 2, 3], &vec![]), vec![1, 2, 3]);
    assert_eq!(collect_failed(&vec![1], &vec![true, false, false]), Vec::<i64>::new());
    assert_eq!(collect_failed(&vec![], &vec![false]), Vec::<i64>::new());
    assert_eq!(collect_failed(&vec![7, 7], &vec![false, true]), vec![7]);
}

#[test]
fn job_without_buttons_sends_none() {
    let spec = ScheduleTask::new().interval(1).pending_notification(vec!["a".to_string()]).groups(vec![1]);
    let mut job = spec.run(0).1.job;
    assert_eq!(
        job.step(JobEvent::Tick),
        JobAction::FanOut(Round { text: "a".to_string(), buttons: None, destinations: vec![1] })
    );
}

#[test]
fn keyboard_clone_is_equal() {
    let layout = Keyboard::new(vec![
        vec![
            Button::url("a".to_string(), "https://a.example/".to_string()),
            Button::callback("b".to_string(), "data".to_string()),
        ],
        vec![],
        vec![Button::callback("确认".to_string(), "y".to_string())],
    ]);
    assert_eq!(layout.clone(), layout);
}

#[test]
fn closed_mutation_queue_with_pending_cancellation_is_a_cancellation() {
    let mut job = job(&["a"], vec![10]);
    assert_eq!(job.step(JobEvent::EditorClosed { cancelled: true }), JobAction::Exit(ExitReason::Cancelled));
    assert!(!job.is_running());
    assert_eq!(job.step(JobEvent::Tick), JobAction::Exit(ExitReason::Cancelled));
}
